//! The server's session: connections are accepted until a trigger fires,
//! then every retained connection gets a sender, and the session is done
//! when each sender has reported.

use crate::args::ServerArgs;
use crate::sender::{config_error, SendError, Sender, SenderModel};
use vstd::prelude::*;

verus! {

/// The sender of one connection of a server run.
pub fn sender_for(args: &ServerArgs) -> (r: Result<Sender, SendError>)
    ensures
        match config_error(args.pps, args.secs, args.packet_len) {
            Some(e) => r matches Err(err) && err == e,
            None => r matches Ok(sender) && sender.wf() && sender@ == SenderModel::start(
                args.pps,
                args.secs,
                args.packet_len,
            ) && sender.frame_bytes() == Seq::<u8>::empty(),
        },
{
    Sender::new(args.pps, args.secs, args.packet_len)
}

/// Where a session stands.
#[derive(Debug, Clone, Copy, PartialEq, Eq, Structural)]
pub enum Phase {
    /// Connections are accepted and retained.
    Accepting,
    /// The trigger has fired; no sender has been started yet.
    Triggered,
    /// Some senders have been started, not all.
    Sending,
    /// Every sender has been started; their reports are awaited.
    Joining,
    /// Every sender has reported success.
    Done,
    /// A sender has reported a failure: the run has failed.
    Failed,
}

/// What happened outside.
#[derive(Debug, Clone, Copy, PartialEq, Eq, Structural)]
pub enum Event {
    /// The listener has accepted a connection.
    Accepted,
    /// The periodic tick has come.
    Tick,
    /// The trigger has fired.
    Trigger,
    /// One sender has been started.
    Spawned,
    /// One sender has reported how it ended.
    Reported { ok: bool },
}

/// What to do about an event.
#[derive(Debug, Clone, Copy, PartialEq, Eq, Structural)]
pub enum Action {
    /// Keep the accepted connection for this run.
    Retain,
    /// The accepted connection is no part of this run.
    Discard,
    /// Tell the user how many connections are accepted.
    Announce { accepted: usize },
    /// Stop accepting and start one sender for each retained connection.
    StartSenders { count: usize },
    /// Wait for the senders' reports.
    AwaitReports,
    /// Report the elapsed time: the run is complete.
    Finish,
    /// Give the run up as failed.
    Abort,
    /// Nothing.
    Nothing,
}

/// The state of a session.
#[derive(Debug, Clone, Copy, PartialEq, Eq, Structural)]
pub struct Session {
    phase: Phase,
    accepted: usize,
    announced: usize,
    spawned: usize,
    reported: usize,
}

/// The mathematical value of a session.
pub struct SessionModel {
    pub phase: Phase,
    /// Connections retained.
    pub accepted: nat,
    /// The count that the user was told last.
    pub announced: nat,
    /// Senders started.
    pub spawned: nat,
    /// Senders that have reported success.
    pub reported: nat,
}

impl SessionModel {
    /// A session that accepts and holds no connection yet.
    pub open spec fn start() -> SessionModel {
        SessionModel { phase: Phase::Accepting, accepted: 0, announced: 0, spawned: 0, reported: 0 }
    }

    /// The counts agree with the phase.
    pub open spec fn wf(self) -> bool {
        &&& self.announced <= self.accepted <= usize::MAX
        &&& self.reported <= self.spawned <= self.accepted
        &&& match self.phase {
            Phase::Accepting => self.spawned == 0,
            Phase::Triggered => self.spawned == 0 && self.accepted > 0,
            Phase::Sending => 0 < self.spawned < self.accepted && self.reported == 0,
            Phase::Joining => self.spawned == self.accepted && self.reported < self.accepted,
            Phase::Done => self.spawned == self.accepted && self.reported == self.accepted,
            Phase::Failed => self.spawned == self.accepted,
        }
    }

    /// The session after `event`, and what to do about the event.
    ///
    /// While accepting, each connection is retained; a tick announces the
    /// count where it has grown since it was last announced; the trigger
    /// ends accepting, and with no connection the run at once. A connection
    /// accepted after the trigger is discarded. Senders are started one for
    /// each retained connection, then their reports are joined: the first
    /// failure fails the run, the last success completes it. An event that
    /// has no place in the phase changes nothing.
    pub open spec fn step(self, event: Event) -> (SessionModel, Action) {
        match (self.phase, event) {
            (Phase::Accepting, Event::Accepted) => if self.accepted < usize::MAX {
                (SessionModel { accepted: self.accepted + 1, ..self }, Action::Retain)
            } else {
                (self, Action::Discard)
            },
            (_, Event::Accepted) => (self, Action::Discard),
            (Phase::Accepting, Event::Tick) => if self.announced < self.accepted {
                (
                    SessionModel { announced: self.accepted, ..self },
                    Action::Announce { accepted: self.accepted as usize },
                )
            } else {
                (self, Action::Nothing)
            },
            (Phase::Accepting, Event::Trigger) => if self.accepted == 0 {
                (SessionModel { phase: Phase::Done, ..self }, Action::Finish)
            } else {
                (
                    SessionModel { phase: Phase::Triggered, ..self },
                    Action::StartSenders { count: self.accepted as usize },
                )
            },
            (Phase::Triggered, Event::Spawned) | (Phase::Sending, Event::Spawned) => if self.spawned
                + 1 < self.accepted {
                (
                    SessionModel { phase: Phase::Sending, spawned: self.spawned + 1, ..self },
                    Action::Nothing,
                )
            } else {
                (
                    SessionModel { phase: Phase::Joining, spawned: self.spawned + 1, ..self },
                    Action::AwaitReports,
                )
            },
            (Phase::Joining, Event::Reported { ok }) => if !ok {
                (SessionModel { phase: Phase::Failed, ..self }, Action::Abort)
            } else if self.reported + 1 < self.accepted {
                (SessionModel { reported: self.reported + 1, ..self }, Action::AwaitReports)
            } else {
                (
                    SessionModel { phase: Phase::Done, reported: self.reported + 1, ..self },
                    Action::Finish,
                )
            },
            _ => (self, Action::Nothing),
        }
    }
}

impl View for Session {
    type V = SessionModel;

    closed spec fn view(&self) -> SessionModel {
        SessionModel {
            phase: self.phase,
            accepted: self.accepted as nat,
            announced: self.announced as nat,
            spawned: self.spawned as nat,
            reported: self.reported as nat,
        }
    }
}

impl Session {
    /// A session that accepts and holds no connection yet.
    pub fn new() -> (r: Session)
        ensures
            r@ == SessionModel::start(),
            r@.wf(),
    {
        Session { phase: Phase::Accepting, accepted: 0, announced: 0, spawned: 0, reported: 0 }
    }

    /// Where the session stands.
    pub fn phase(&self) -> (r: Phase)
        ensures
            r == self@.phase,
    {
        self.phase
    }

    /// Connections retained.
    pub fn accepted(&self) -> (r: usize)
        ensures
            r == self@.accepted,
    {
        self.accepted
    }

    /// Takes in an event and says what to do about it.
    pub fn on_event(&mut self, event: Event) -> (r: Action)
        requires
            old(self)@.wf(),
        ensures
            (final(self)@, r) == old(self)@.step(event),
            final(self)@.wf(),
    {
        match event {
            Event::Accepted => {
                if self.phase == Phase::Accepting && self.accepted < usize::MAX {
                    self.accepted = self.accepted + 1;
                    Action::Retain
                } else {
                    Action::Discard
                }
            },
            Event::Tick => {
                if self.phase == Phase::Accepting && self.announced < self.accepted {
                    self.announced = self.accepted;
                    Action::Announce { accepted: self.accepted }
                } else {
                    Action::Nothing
                }
            },
            Event::Trigger => {
                if self.phase != Phase::Accepting {
                    Action::Nothing
                } else if self.accepted == 0 {
                    self.phase = Phase::Done;
                    Action::Finish
                } else {
                    self.phase = Phase::Triggered;
                    Action::StartSenders { count: self.accepted }
                }
            },
            Event::Spawned => {
                if self.phase == Phase::Triggered || self.phase == Phase::Sending {
                    self.spawned = self.spawned + 1;
                    if self.spawned < self.accepted {
                        self.phase = Phase::Sending;
                        Action::Nothing
                    } else {
                        self.phase = Phase::Joining;
                        Action::AwaitReports
                    }
                } else {
                    Action::Nothing
                }
            },
            Event::Reported { ok } => {
                if self.phase != Phase::Joining {
                    Action::Nothing
                } else if !ok {
                    self.phase = Phase::Failed;
                    Action::Abort
                } else {
                    self.reported = self.reported + 1;
                    if self.reported < self.accepted {
                        Action::AwaitReports
                    } else {
                        self.phase = Phase::Done;
                        Action::Finish
                    }
                }
            },
        }
    }
}

/// Every event keeps the session well formed. The connections retained are
/// those accepted before the trigger: their count changes only while
/// accepting. A session is done only when every retained connection had a
/// sender and every sender has reported success, and a failure report while
/// joining fails the run.
pub proof fn lemma_session_step(m: SessionModel, event: Event)
    requires
        m.wf(),
    ensures
        m.step(event).0.wf(),
        m.phase != Phase::Accepting ==> m.step(event).0.accepted == m.accepted,
        m.step(event).0.phase == Phase::Done ==> m.step(event).0.spawned == m.step(
            event,
        ).0.accepted && m.step(event).0.reported == m.step(event).0.accepted,
        m.phase == Phase::Joining && event == (Event::Reported { ok: false }) ==> m.step(
            event,
        ).0.phase == Phase::Failed && m.step(event).1 == Action::Abort,
        m.phase == Phase::Done || m.phase == Phase::Failed ==> m.step(event).0 == m,
{
}

} // verus!
