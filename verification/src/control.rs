//! The control loop's decisions: what one read from the device and one key
//! event do to the state of the program, and what they ask the program to
//! do.
//!
//! The program around the library runs the loop. In each round it reads
//! from the device with a short timeout and hands the outcome to
//! `Companion::on_read`, then polls the keyboard and hands an event, if
//! there is one, to `Companion::on_key`. It carries out the effects that
//! come back, in their order.

use crate::clock::is_clock_text;
use crate::command::CommandBuffer;
use crate::decoder::{decode, decode_fields};
use crate::effect::{effect_texts, Effect, EffectText, Fault};
use crate::frame::{frame_views, frames_in, remainder, StreamBuffer};
use crate::interpreter::{
    handle_key, handle_key_at, key_effects, key_outcome, line_after, session_after, KeyInput,
};
use crate::record::joined_fields;
use crate::session::{RecordingSession, SessionState};
use vstd::prelude::*;

verus! {

/// The speed of the serial link to the device, in baud.
pub const BAUD_RATE: u32 = 115200;

/// How long one read from the device may wait, in milliseconds.
pub const READ_TIMEOUT_MILLIS: u64 = 10;

/// How many bytes one read from the device may bring.
pub const READ_BUFFER_SIZE: usize = 1000;

/// How one read from the device ended.
#[derive(Debug, PartialEq, Eq)]
pub enum ReadOutcome {
    /// The read brought these bytes (possibly none).
    Data(Vec<u8>),
    /// Nothing arrived in time. This is no error.
    TimedOut,
    /// The device was disconnected.
    Disconnected,
    /// The transport failed in some other way.
    Failed,
}

/// The state of the program as contracts see it.
pub struct CompanionState {
    /// The bytes received and not yet given out as frames.
    pub stream: Seq<u8>,
    /// The recording session.
    pub session: SessionState,
    /// The line being typed.
    pub line: Seq<char>,
}

/// Whether `line` stores a record of the fields `fields`: a time of day,
/// then the values, then a line end.
pub open spec fn is_stored_line(line: Seq<char>, fields: Seq<Option<Seq<char>>>) -> bool {
    &&& line.len() >= 8
    &&& is_clock_text(line.take(8))
    &&& line.skip(8) == joined_fields(fields) + seq!['\n']
}

/// Whether `effects` store the frames `frames`, one line for each frame, in
/// order.
pub open spec fn stores_frames(effects: Seq<EffectText>, frames: Seq<Seq<u8>>) -> bool {
    &&& effects.len() == frames.len()
    &&& forall|i: int|
        0 <= i < effects.len() ==> (#[trigger] effects[i] matches EffectText::Append { line }
            && is_stored_line(line, decode_fields(frames[i])))
}

/// Whether `effects` are what the bytes `bytes`, read into the buffer
/// `stream`, ask for: while the session records, one stored line for each
/// frame that is now complete; otherwise nothing.
pub open spec fn data_effects(
    effects: Seq<EffectText>,
    stream: Seq<u8>,
    session: SessionState,
    bytes: Seq<u8>,
) -> bool {
    if session.active {
        stores_frames(effects, frames_in(stream + bytes))
    } else {
        effects.len() == 0
    }
}

/// The state that the control loop owns: the stream buffer, the recording
/// session and the command line.
#[derive(Debug)]
pub struct Companion {
    stream: StreamBuffer,
    session: RecordingSession,
    command: CommandBuffer,
}

impl View for Companion {
    type V = CompanionState;

    closed spec fn view(&self) -> CompanionState {
        CompanionState { stream: self.stream@, session: self.session@, line: self.command@ }
    }
}

impl Companion {
    /// The state of a program that has just begun: nothing buffered, not
    /// recording, an empty command line.
    pub fn new() -> (companion: Companion)
        ensures
            companion@.stream == Seq::<u8>::empty(),
            companion@.session == SessionState::initial(),
            companion@.line == Seq::<char>::empty(),
    {
        Companion {
            stream: StreamBuffer::new(),
            session: RecordingSession::new(),
            command: CommandBuffer::new(),
        }
    }

    /// The recording session.
    pub fn session(&self) -> (session: &RecordingSession)
        ensures
            session@ == self@.session,
    {
        &self.session
    }

    /// The line being typed, for the prompt to show.
    pub fn command_line(&self) -> (line: String)
        ensures
            line@ == self@.line,
    {
        self.command.text()
    }

    /// The bytes received and not yet given out as frames.
    pub fn pending(&self) -> (bytes: &Vec<u8>)
        ensures
            bytes@ == self@.stream,
    {
        self.stream.pending()
    }

    /// Takes the outcome of one read from the device.
    ///
    /// Bytes go into the stream buffer; every frame that they complete is
    /// decoded at once and, while the session records, stored as one line.
    /// A timeout changes nothing and asks for nothing. A lost or broken
    /// transport ends the program. The session and the command line stay as
    /// they are in every case.
    pub fn on_read(&mut self, outcome: &ReadOutcome) -> (effects: Vec<Effect>)
        ensures
            final(self)@.session == old(self)@.session,
            final(self)@.line == old(self)@.line,
            match *outcome {
                ReadOutcome::Data(bytes) => {
                    &&& final(self)@.stream == remainder(old(self)@.stream + bytes@)
                    &&& data_effects(
                        effect_texts(effects@),
                        old(self)@.stream,
                        old(self)@.session,
                        bytes@,
                    )
                },
                ReadOutcome::TimedOut => {
                    &&& final(self)@.stream == old(self)@.stream
                    &&& effect_texts(effects@) == Seq::<EffectText>::empty()
                },
                ReadOutcome::Disconnected => {
                    &&& final(self)@.stream == old(self)@.stream
                    &&& effect_texts(effects@) == seq![EffectText::Terminate(Fault::Disconnected)]
                },
                ReadOutcome::Failed => {
                    &&& final(self)@.stream == old(self)@.stream
                    &&& effect_texts(effects@) == seq![
                        EffectText::Terminate(Fault::TransportFailure),
                    ]
                },
            },
    {
        let mut effects: Vec<Effect> = Vec::new();
        match outcome {
            ReadOutcome::Data(bytes) => {
                let frames = self.stream.ingest(bytes.as_slice());
                let mut i: usize = 0;
                while i < frames.len()
                    invariant
                        i <= frames.len(),
                        self.session@ == old(self).session@,
                        self.session@.active ==> stores_frames(
                            effect_texts(effects@),
                            frame_views(frames@).take(i as int),
                        ),
                        !self.session@.active ==> effects.len() == 0,
                    decreases frames.len() - i,
                {
                    let record = decode(&frames[i]);
                    let ghost before = effect_texts(effects@);
                    match self.session.record(&record) {
                        Some(line) => {
                            proof {
                                let stamp = record@.timestamp;
                                let rest = joined_fields(record@.fields) + seq!['\n'];
                                assert(line@ == stamp + rest);
                                assert(line@.take(8) == stamp);
                                assert(line@.skip(8) == rest);
                            }
                            effects.push(Effect::Append { line });
                        },
                        None => {},
                    }
                    i += 1;
                    proof {
                        if self.session@.active {
                            let now = effect_texts(effects@);
                            let done = frame_views(frames@).take(i as int);
                            assert(now.len() == done.len());
                            assert forall|k: int| 0 <= k < now.len() implies (
                            #[trigger] now[k] matches EffectText::Append { line }
                                && is_stored_line(line, decode_fields(done[k]))) by {
                                if k < i - 1 {
                                    assert(now[k] == before[k]);
                                    assert(done[k] == frame_views(frames@).take(i - 1)[k]);
                                }
                            }
                        }
                    }
                }
                assert(frame_views(frames@).take(i as int) == frame_views(frames@));
            },
            ReadOutcome::TimedOut => {},
            ReadOutcome::Disconnected => {
                effects.push(Effect::Terminate(Fault::Disconnected));
            },
            ReadOutcome::Failed => {
                effects.push(Effect::Terminate(Fault::TransportFailure));
            },
        }
        effects
    }

    /// Takes one key event at the date and time `stamp`. The stream buffer
    /// stays as it is.
    pub fn on_key_at(&mut self, input: KeyInput, stamp: &str) -> (effects: Vec<Effect>)
        ensures
            final(self)@.stream == old(self)@.stream,
            final(self)@.line == line_after(old(self)@.line, input),
            final(self)@.session == session_after(
                old(self)@.line,
                old(self)@.session,
                input,
                stamp@,
            ),
            effect_texts(effects@) == key_effects(
                old(self)@.line,
                old(self)@.session,
                input,
                stamp@,
            ),
    {
        handle_key_at(&mut self.command, &mut self.session, input, stamp)
    }

    /// Takes one key event now. The stream buffer stays as it is.
    pub fn on_key(&mut self, input: KeyInput) -> (effects: Vec<Effect>)
        ensures
            final(self)@.stream == old(self)@.stream,
            final(self)@.line == line_after(old(self)@.line, input),
            exists|stamp: Seq<char>|
                key_outcome(
                    old(self)@.line,
                    old(self)@.session,
                    input,
                    stamp,
                    final(self)@.session,
                    effect_texts(effects@),
                ),
    {
        handle_key(&mut self.command, &mut self.session, input)
    }
}

} // verus!
