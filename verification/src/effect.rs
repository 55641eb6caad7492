//! What the program around the library is asked to do.

use crate::session::SessionStatus;
use vstd::prelude::*;

verus! {

/// Why the program has to end.
#[derive(Clone, Copy, Debug, PartialEq, Eq, Structural)]
pub enum Fault {
    /// The device was disconnected.
    Disconnected,
    /// The transport failed in some other way that cannot be recovered.
    TransportFailure,
}

/// One thing that the program has to do, in the order in which the effects
/// are handed over.
#[derive(Debug, PartialEq, Eq)]
pub enum Effect {
    /// Tell the user how a request to the session ended.
    Notify(SessionStatus),
    /// Create the sink `name`, replacing any sink held before, and write
    /// `header` to it. A failure is fatal.
    CreateSink { name: String, header: String },
    /// Append `line` to the sink and flush it. A failure is fatal.
    Append { line: String },
    /// Write `text` to the device. A failure is fatal.
    Send { text: String },
    /// End the program with a diagnostic.
    Terminate(Fault),
}

/// An effect as contracts see it.
pub enum EffectText {
    Notify(SessionStatus),
    CreateSink { name: Seq<char>, header: Seq<char> },
    Append { line: Seq<char> },
    Send { text: Seq<char> },
    Terminate(Fault),
}

impl View for Effect {
    type V = EffectText;

    open spec fn view(&self) -> EffectText {
        match *self {
            Effect::Notify(status) => EffectText::Notify(status),
            Effect::CreateSink { name, header } => EffectText::CreateSink {
                name: name@,
                header: header@,
            },
            Effect::Append { line } => EffectText::Append { line: line@ },
            Effect::Send { text } => EffectText::Send { text: text@ },
            Effect::Terminate(fault) => EffectText::Terminate(fault),
        }
    }
}

/// A list of effects as contracts see it.
pub open spec fn effect_texts(effects: Seq<Effect>) -> Seq<EffectText> {
    effects.map_values(|e: Effect| e@)
}

} // verus!
