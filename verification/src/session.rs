//! The recording session: whether decoded records are being stored, and in
//! which sink.
//!
//! The session decides; it does not write. Starting it names the sink that
//! the caller has to create, and recording hands back the line that the
//! caller has to append to that sink and flush.

use crate::clock::{is_stamp_text, stamp_text};
use crate::record::{record_line, SensorRecord};
use vstd::prelude::*;
use vstd::string::*;

verus! {

/// How a request to start or to stop recording ended.
#[derive(Clone, Copy, Debug, PartialEq, Eq, Structural)]
pub enum SessionStatus {
    /// Recording has begun in a new sink.
    Started,
    /// Recording was already going on; nothing has changed.
    AlreadyActive,
    /// Recording has ended; the sink is kept.
    Stopped,
    /// No recording was going on; nothing has changed.
    NotActive,
}

/// The name of the sink of a recording that starts at the date and time
/// `stamp`.
pub open spec fn sink_name_text(stamp: Seq<char>) -> Seq<char> {
    "Session "@ + stamp + " .csv"@
}

/// A recording session as contracts see it.
pub struct SessionState {
    /// Whether records are being stored.
    pub active: bool,
    /// The name of the sink that was created last, if any was.
    pub sink: Option<Seq<char>>,
}

impl SessionState {
    /// The session of a program that has just begun: not recording, no sink.
    pub open spec fn initial() -> SessionState {
        SessionState { active: false, sink: None }
    }

    /// The session after a request to start at the date and time `stamp`.
    pub open spec fn after_start(self, stamp: Seq<char>) -> SessionState {
        if self.active {
            self
        } else {
            SessionState { active: true, sink: Some(sink_name_text(stamp)) }
        }
    }

    /// What a request to start answers.
    pub open spec fn start_status(self) -> SessionStatus {
        if self.active {
            SessionStatus::AlreadyActive
        } else {
            SessionStatus::Started
        }
    }

    /// The session after a request to stop.
    pub open spec fn after_stop(self) -> SessionState {
        SessionState { active: false, sink: self.sink }
    }

    /// What a request to stop answers.
    pub open spec fn stop_status(self) -> SessionStatus {
        if self.active {
            SessionStatus::Stopped
        } else {
            SessionStatus::NotActive
        }
    }

    /// The line that the session stores for a record, if it stores one.
    pub open spec fn stored_line(self, timestamp: Seq<char>, fields: Seq<Option<Seq<char>>>)
        -> Option<Seq<char>> {
        if self.active {
            Some(record_line(timestamp, fields))
        } else {
            None
        }
    }
}

/// Whether `after` is the session `before` after a request to start that
/// the clock stamped with `stamp`: a date and time, where the request
/// begins a recording.
pub open spec fn starts_at(before: SessionState, stamp: Seq<char>, after: SessionState) -> bool {
    &&& !before.active ==> is_stamp_text(stamp)
    &&& after == before.after_start(stamp)
}

/// The recording session of the program.
#[derive(Debug)]
pub struct RecordingSession {
    active: bool,
    sink: Option<String>,
}

impl View for RecordingSession {
    type V = SessionState;

    closed spec fn view(&self) -> SessionState {
        SessionState {
            active: self.active,
            sink: match self.sink {
                Some(name) => Some(name@),
                None => None,
            },
        }
    }
}

impl RecordingSession {
    #[verifier::type_invariant]
    spec fn well_formed(self) -> bool {
        self.active ==> self.sink is Some
    }

    /// A session that is not recording and has no sink.
    pub fn new() -> (session: RecordingSession)
        ensures
            session@ == SessionState::initial(),
    {
        RecordingSession { active: false, sink: None }
    }

    /// Whether records are being stored. While they are, the session has a
    /// sink.
    pub fn is_active(&self) -> (active: bool)
        ensures
            active == self@.active,
            active ==> self@.sink is Some,
    {
        proof {
            use_type_invariant(self);
        }
        self.active
    }

    /// The name of the sink that was created last, if any was.
    pub fn sink_name(&self) -> (name: Option<String>)
        ensures
            match name {
                Some(n) => self@.sink == Some(n@),
                None => self@.sink is None,
            },
    {
        match &self.sink {
            Some(n) => Some(n.clone()),
            None => None,
        }
    }

    /// Asks the session to start recording at the date and time `stamp`.
    ///
    /// A session that is recording stays as it is and answers
    /// `AlreadyActive`. Otherwise the session turns active with a new sink
    /// named after `stamp` and answers `Started`; the caller creates that
    /// sink and writes the header line to it.
    pub fn start_at(&mut self, stamp: &str) -> (status: SessionStatus)
        ensures
            final(self)@ == old(self)@.after_start(stamp@),
            status == old(self)@.start_status(),
    {
        if self.active {
            SessionStatus::AlreadyActive
        } else {
            let mut name = String::from_str("Session ");
            name.append(stamp);
            name.append(" .csv");
            self.sink = Some(name);
            self.active = true;
            SessionStatus::Started
        }
    }

    /// Asks the session to start recording now. The sink of a session that
    /// starts is named after the date and time of the call.
    pub fn start(&mut self) -> (status: SessionStatus)
        ensures
            status == old(self)@.start_status(),
            exists|stamp: Seq<char>| starts_at(old(self)@, stamp, final(self)@),
    {
        if self.active {
            assert(starts_at(old(self)@, Seq::<char>::empty(), self@));
            SessionStatus::AlreadyActive
        } else {
            let stamp = stamp_text();
            let status = self.start_at(stamp.as_str());
            assert(starts_at(old(self)@, stamp@, self@));
            status
        }
    }

    /// Asks the session to stop recording.
    ///
    /// A session that is not recording stays as it is and answers
    /// `NotActive`. Otherwise the session turns inactive, keeps its sink and
    /// answers `Stopped`.
    pub fn stop(&mut self) -> (status: SessionStatus)
        ensures
            final(self)@ == old(self)@.after_stop(),
            status == old(self)@.stop_status(),
    {
        if self.active {
            self.active = false;
            SessionStatus::Stopped
        } else {
            SessionStatus::NotActive
        }
    }

    /// Hands back the line to append to the sink for `record`, or nothing
    /// while the session is not recording. The session itself is not
    /// changed.
    pub fn record(&self, record: &SensorRecord) -> (line: Option<String>)
        ensures
            match line {
                Some(l) => self@.stored_line(record@.timestamp, record@.fields) == Some(l@),
                None => self@.stored_line(record@.timestamp, record@.fields) is None,
            },
    {
        if self.active {
            Some(record.line())
        } else {
            None
        }
    }
}

/// A second request to start, with no request to stop between the two, is
/// answered with `AlreadyActive` and changes nothing: the session stays
/// active and keeps the sink of the first request.
pub proof fn lemma_start_twice(session: SessionState, first: Seq<char>, second: Seq<char>)
    ensures
        session.after_start(first).active,
        session.after_start(first).start_status() == SessionStatus::AlreadyActive,
        session.after_start(first).after_start(second) == session.after_start(first),
{
}

/// A session that is not recording stores nothing, whatever the record.
pub proof fn lemma_inactive_stores_nothing(
    session: SessionState,
    timestamp: Seq<char>,
    fields: Seq<Option<Seq<char>>>,
)
    requires
        !session.active,
    ensures
        session.stored_line(timestamp, fields) is None,
{
}

/// Stopping keeps the sink, and a stopped session can be started again,
/// which replaces the sink by a new one.
pub proof fn lemma_stop_then_start(session: SessionState, stamp: Seq<char>)
    ensures
        session.after_stop().sink == session.sink,
        !session.after_stop().active,
        session.after_stop().start_status() == SessionStatus::Started,
        session.after_stop().after_start(stamp).sink == Some(sink_name_text(stamp)),
{
}

} // verus!
