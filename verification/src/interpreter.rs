//! The command interpreter: what a key does to the line being typed, and
//! what a submitted line does to the session and to the device.

use crate::clock::{is_stamp_text, stamp_text};
use crate::command::{classify_text, Command, CommandBuffer};
use crate::effect::{effect_texts, Effect, EffectText};
use crate::record::{header_line, header_text};
use crate::session::{sink_name_text, RecordingSession, SessionState, SessionStatus};
use vstd::prelude::*;

verus! {

/// A key of the keyboard, as far as the prompt tells keys apart.
#[derive(Clone, Copy, Debug, PartialEq, Eq, Structural)]
pub enum Key {
    /// A key that types a visible character.
    Char(char),
    /// The key that removes the last character.
    Backspace,
    /// The key that submits the line.
    Enter,
    /// Any other key.
    Other,
}

/// What happened to the key.
#[derive(Clone, Copy, Debug, PartialEq, Eq, Structural)]
pub enum KeyKind {
    /// The key went down.
    Press,
    /// The key is held down and repeats.
    Repeat,
    /// The key came up.
    Release,
}

/// One event of the keyboard.
#[derive(Clone, Copy, Debug, PartialEq, Eq, Structural)]
pub struct KeyInput {
    pub key: Key,
    pub kind: KeyKind,
}

/// Whether the event submits the line. The release of a key does nothing.
pub open spec fn submits(input: KeyInput) -> bool {
    input.kind != KeyKind::Release && input.key == Key::Enter
}

/// The line after a key event: a character is appended, backspace removes
/// the last character if there is one, submitting empties the line, and
/// every other event, the release of any key among them, leaves it.
pub open spec fn line_after(line: Seq<char>, input: KeyInput) -> Seq<char> {
    if input.kind == KeyKind::Release {
        line
    } else {
        match input.key {
            Key::Char(c) => line.push(c),
            Key::Backspace => if line.len() > 0 {
                line.drop_last()
            } else {
                line
            },
            Key::Enter => Seq::empty(),
            Key::Other => line,
        }
    }
}

/// The session after the line `line` was submitted at the date and time
/// `stamp`.
pub open spec fn session_after_submit(line: Seq<char>, session: SessionState, stamp: Seq<char>)
    -> SessionState {
    match classify_text(line) {
        Command::Start => session.after_start(stamp),
        Command::Stop => session.after_stop(),
        Command::Passthrough => session,
    }
}

/// What submitting the line `line` at the date and time `stamp` asks the
/// program to do: a request to the session is answered with a notice, and a
/// session that starts has its sink created with the header line; any other
/// line is sent to the device as it was typed, white space included.
pub open spec fn submit_effects(line: Seq<char>, session: SessionState, stamp: Seq<char>) -> Seq<
    EffectText,
> {
    match classify_text(line) {
        Command::Start => if session.active {
            seq![EffectText::Notify(SessionStatus::AlreadyActive)]
        } else {
            seq![
                EffectText::Notify(SessionStatus::Started),
                EffectText::CreateSink { name: sink_name_text(stamp), header: header_text() },
            ]
        },
        Command::Stop => seq![EffectText::Notify(session.stop_status())],
        Command::Passthrough => seq![EffectText::Send { text: line }],
    }
}

/// The session after a key event.
pub open spec fn session_after(
    line: Seq<char>,
    session: SessionState,
    input: KeyInput,
    stamp: Seq<char>,
) -> SessionState {
    if submits(input) {
        session_after_submit(line, session, stamp)
    } else {
        session
    }
}

/// What a key event asks the program to do.
pub open spec fn key_effects(
    line: Seq<char>,
    session: SessionState,
    input: KeyInput,
    stamp: Seq<char>,
) -> Seq<EffectText> {
    if submits(input) {
        submit_effects(line, session, stamp)
    } else {
        Seq::empty()
    }
}

/// Whether the outcome of a key event depends on the date and time: only a
/// submitted `start` that reaches a session which is not recording does.
pub open spec fn needs_stamp(line: Seq<char>, session: SessionState, input: KeyInput) -> bool {
    submits(input) && classify_text(line) == Command::Start && !session.active
}

/// Whether a key event that the clock stamped with `stamp` leaves the
/// session `after` and asks for `effects`. The stamp is a date and time
/// where the outcome depends on it.
pub open spec fn key_outcome(
    line: Seq<char>,
    session: SessionState,
    input: KeyInput,
    stamp: Seq<char>,
    after: SessionState,
    effects: Seq<EffectText>,
) -> bool {
    &&& needs_stamp(line, session, input) ==> is_stamp_text(stamp)
    &&& after == session_after(line, session, input, stamp)
    &&& effects == key_effects(line, session, input, stamp)
}

/// Submits the line at the date and time `stamp`: carries out what it asks
/// for and empties it.
pub fn submit_at(buffer: &mut CommandBuffer, session: &mut RecordingSession, stamp: &str) -> (effects:
    Vec<Effect>)
    ensures
        final(buffer)@ == Seq::<char>::empty(),
        final(session)@ == session_after_submit(old(buffer)@, old(session)@, stamp@),
        effect_texts(effects@) == submit_effects(old(buffer)@, old(session)@, stamp@),
{
    let mut effects: Vec<Effect> = Vec::new();
    match buffer.classify() {
        Command::Start => {
            let status = session.start_at(stamp);
            effects.push(Effect::Notify(status));
            if status == SessionStatus::Started {
                match session.sink_name() {
                    Some(name) => {
                        effects.push(Effect::CreateSink { name, header: header_line() });
                    },
                    None => {},
                }
            }
        },
        Command::Stop => {
            let status = session.stop();
            effects.push(Effect::Notify(status));
        },
        Command::Passthrough => {
            effects.push(Effect::Send { text: buffer.text() });
        },
    }
    buffer.clear();
    assert(effect_texts(effects@) =~= submit_effects(old(buffer)@, old(session)@, stamp@));
    effects
}

/// Handles one key event at the date and time `stamp`.
pub fn handle_key_at(
    buffer: &mut CommandBuffer,
    session: &mut RecordingSession,
    input: KeyInput,
    stamp: &str,
) -> (effects: Vec<Effect>)
    ensures
        final(buffer)@ == line_after(old(buffer)@, input),
        final(session)@ == session_after(old(buffer)@, old(session)@, input, stamp@),
        effect_texts(effects@) == key_effects(old(buffer)@, old(session)@, input, stamp@),
{
    match input.kind {
        KeyKind::Release => {
            let effects: Vec<Effect> = Vec::new();
            assert(effect_texts(effects@) =~= Seq::<EffectText>::empty());
            return effects;
        },
        _ => {},
    }
    match input.key {
        Key::Enter => submit_at(buffer, session, stamp),
        Key::Char(c) => {
            buffer.push(c);
            let effects: Vec<Effect> = Vec::new();
            assert(effect_texts(effects@) =~= Seq::<EffectText>::empty());
            effects
        },
        Key::Backspace => {
            buffer.backspace();
            let effects: Vec<Effect> = Vec::new();
            assert(effect_texts(effects@) =~= Seq::<EffectText>::empty());
            effects
        },
        Key::Other => {
            let effects: Vec<Effect> = Vec::new();
            assert(effect_texts(effects@) =~= Seq::<EffectText>::empty());
            effects
        },
    }
}

/// Handles one key event now. The clock is read only where the outcome
/// depends on it: for a submitted `start` that begins a recording.
pub fn handle_key(buffer: &mut CommandBuffer, session: &mut RecordingSession, input: KeyInput) -> (effects:
    Vec<Effect>)
    ensures
        final(buffer)@ == line_after(old(buffer)@, input),
        exists|stamp: Seq<char>|
            key_outcome(
                old(buffer)@,
                old(session)@,
                input,
                stamp,
                final(session)@,
                effect_texts(effects@),
            ),
{
    let starts = match (input.kind, input.key) {
        (KeyKind::Release, _) => false,
        (_, Key::Enter) => !session.is_active() && buffer.classify() == Command::Start,
        _ => false,
    };
    assert(starts == needs_stamp(buffer@, session@, input));
    let stamp = if starts {
        stamp_text()
    } else {
        String::new()
    };
    let effects = handle_key_at(buffer, session, input, stamp.as_str());
    assert(key_outcome(
        old(buffer)@,
        old(session)@,
        input,
        stamp@,
        session@,
        effect_texts(effects@),
    ));
    effects
}

/// A submitted line that is neither `start` nor `stop` is sent to the device
/// once, as it was typed, and leaves the session as it is.
pub proof fn lemma_other_text_goes_to_device(
    line: Seq<char>,
    session: SessionState,
    stamp: Seq<char>,
)
    requires
        classify_text(line) == Command::Passthrough,
    ensures
        submit_effects(line, session, stamp) == seq![EffectText::Send { text: line }],
        session_after_submit(line, session, stamp) == session,
{
}

/// Where no recording begins, the date and time have no part in what a key
/// event does.
pub proof fn lemma_stamp_only_names_sink(
    line: Seq<char>,
    session: SessionState,
    input: KeyInput,
    one: Seq<char>,
    other: Seq<char>,
)
    requires
        !needs_stamp(line, session, input),
    ensures
        session_after(line, session, input, one) == session_after(line, session, input, other),
        key_effects(line, session, input, one) == key_effects(line, session, input, other),
{
}

} // verus!
