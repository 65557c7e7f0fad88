//! The supervisor of lock sessions.
//!
//! A session runs as a child process. When it ends on its own, with code 0
//! or 1, the supervisor ends with the same code. When it ends in any other
//! way it has crashed, and the supervisor starts a new one, unless the
//! sessions crash in a loop: the ledger of restarts is full and its oldest
//! entry is less than a second old.

use vstd::prelude::*;
use std::collections::VecDeque;

verus! {

/// The time, in nanoseconds, within which a full ledger of restarts means
/// a crash loop.
pub const WINDOW: u64 = 1_000_000_000;

/// The time from `then` to `now`, in nanoseconds; none where `now` is the
/// earlier of the two.
pub open spec fn elapsed(then: u64, now: u64) -> int {
    if now >= then {
        now - then
    } else {
        0
    }
}

/// What a ledger of restarts holds, as plain values.
pub struct LedgerState {
    /// The times of the restarts that are remembered, oldest first, in
    /// nanoseconds on a clock that does not go back.
    pub stamps: Seq<u64>,
    /// The most restarts that are remembered.
    pub capacity: nat,
}

impl LedgerState {
    /// The ledger holds no more restarts than its capacity.
    pub open spec fn wf(self) -> bool {
        self.stamps.len() <= self.capacity
    }

    /// A crash at the time `now` is one of a crash loop: the ledger is
    /// full, and the oldest restart in it is less than a second old.
    pub open spec fn trips(self, now: u64) -> bool {
        &&& self.capacity > 0
        &&& self.stamps.len() == self.capacity
        &&& elapsed(self.stamps[0], now) < WINDOW
    }

    /// The ledger after a restart at the time `now` was recorded: the
    /// oldest entry makes room where the ledger is full.
    pub open spec fn recorded(self, now: u64) -> LedgerState {
        LedgerState {
            stamps: if self.capacity == 0 {
                self.stamps
            } else if self.stamps.len() == self.capacity {
                self.stamps.skip(1).push(now)
            } else {
                self.stamps.push(now)
            },
            ..self
        }
    }

    /// The ledger after a crash at the time `now`: the restart is recorded
    /// unless the crash is one of a crash loop.
    pub open spec fn after_crash(self, now: u64) -> LedgerState {
        if self.trips(now) {
            self
        } else {
            self.recorded(now)
        }
    }
}

/// The times of the most recent restarts, up to a fixed number of them.
pub struct RestartLedger {
    stamps: VecDeque<u64>,
    capacity: usize,
}

impl View for RestartLedger {
    type V = LedgerState;

    closed spec fn view(&self) -> LedgerState {
        LedgerState { stamps: self.stamps@, capacity: self.capacity as nat }
    }
}

impl RestartLedger {
    /// The invariant of a ledger: see [`LedgerState::wf`].
    pub open spec fn wf(&self) -> bool {
        self@.wf()
    }

    /// An empty ledger that remembers up to `capacity` restarts.
    pub fn new(capacity: usize) -> (out: RestartLedger)
        ensures
            out@ == (LedgerState { stamps: Seq::empty(), capacity: capacity as nat }),
            out.wf(),
    {
        RestartLedger { stamps: VecDeque::new(), capacity }
    }

    /// Number of restarts in the ledger.
    pub fn len(&self) -> (n: usize)
        ensures
            n == self@.stamps.len(),
    {
        self.stamps.len()
    }

    /// The most restarts that the ledger remembers.
    pub fn capacity(&self) -> (n: usize)
        ensures
            n == self@.capacity,
    {
        self.capacity
    }

    /// Takes a crash at the time `now`. The result says whether the crash
    /// is one of a crash loop. If it is, the ledger stays as it is; if
    /// not, the restart that follows is recorded.
    pub fn record(&mut self, now: u64) -> (tripped: bool)
        requires
            old(self).wf(),
        ensures
            final(self).wf(),
            tripped == old(self)@.trips(now),
            final(self)@ == old(self)@.after_crash(now),
    {
        if self.capacity == 0 {
            return false;
        }
        if self.stamps.len() == self.capacity {
            let oldest = self.stamps[0];
            let age = if now >= oldest { now - oldest } else { 0 };
            if age < WINDOW {
                return true;
            }
            self.stamps.pop_front();
            assert(self.stamps@ =~= old(self).stamps@.skip(1));
        }
        self.stamps.push_back(now);
        false
    }
}

/// How a session ended.
#[derive(Copy, Clone, PartialEq, Eq, Structural, Debug)]
pub enum ChildExit {
    /// The session ended on its own with this code.
    Exited(i32),
    /// The session ended in any other way, or could not be waited for.
    Abnormal,
}

/// What the supervisor does after a session has ended.
#[derive(Copy, Clone, PartialEq, Eq, Structural, Debug)]
pub enum Action {
    /// End with this code, which is the session's.
    Exit(i32),
    /// Start a new session.
    Respawn,
    /// End with code 1: the sessions crash in a loop.
    Abort,
}

impl ChildExit {
    /// The session did not end on its own with code 0 or 1.
    pub open spec fn is_crash(self) -> bool {
        !(self matches ChildExit::Exited(code) && (code == 0 || code == 1))
    }
}

/// What a supervisor holds, as plain values.
pub struct SupervisorState {
    /// The ledger of restarts.
    pub ledger: LedgerState,
    /// The action on which the supervisor ended, once it has.
    pub ended: Option<Action>,
}

impl SupervisorState {
    /// What the supervisor does after a session has ended in the way
    /// `exit` at the time `now`.
    pub open spec fn action(self, exit: ChildExit, now: u64) -> Action {
        match self.ended {
            Some(last) => last,
            None => match exit {
                ChildExit::Exited(code) if code == 0 || code == 1 => Action::Exit(code),
                _ => if self.ledger.trips(now) {
                    Action::Abort
                } else {
                    Action::Respawn
                },
            },
        }
    }

    /// The supervisor after a session has ended in the way `exit` at the
    /// time `now`.
    pub open spec fn next(self, exit: ChildExit, now: u64) -> SupervisorState {
        match self.ended {
            Some(_) => self,
            None => SupervisorState {
                ledger: if exit.is_crash() {
                    self.ledger.after_crash(now)
                } else {
                    self.ledger
                },
                ended: if self.action(exit, now) is Respawn {
                    None
                } else {
                    Some(self.action(exit, now))
                },
            },
        }
    }
}

/// The supervisor of lock sessions.
pub struct Supervisor {
    ledger: RestartLedger,
    ended: Option<Action>,
}

impl View for Supervisor {
    type V = SupervisorState;

    closed spec fn view(&self) -> SupervisorState {
        SupervisorState { ledger: self.ledger@, ended: self.ended }
    }
}

impl Supervisor {
    /// The invariant of a supervisor: its ledger is well formed, and it
    /// has not ended on a restart.
    pub open spec fn wf(&self) -> bool {
        &&& self@.ledger.wf()
        &&& !(self@.ended == Some(Action::Respawn))
    }

    /// A supervisor that remembers up to `max_restarts` restarts.
    pub fn new(max_restarts: usize) -> (out: Supervisor)
        ensures
            out@ == (SupervisorState {
                ledger: LedgerState { stamps: Seq::empty(), capacity: max_restarts as nat },
                ended: None,
            }),
            out.wf(),
    {
        Supervisor { ledger: RestartLedger::new(max_restarts), ended: None }
    }

    /// The code with which the supervisor's process is to end, once the
    /// supervisor has ended.
    pub fn exit_code(&self) -> (code: Option<i32>)
        ensures
            code == match self@.ended {
                Some(Action::Exit(c)) => Some(c),
                Some(Action::Abort) => Some(1i32),
                _ => None,
            },
    {
        match self.ended {
            Some(Action::Exit(c)) => Some(c),
            Some(Action::Abort) => Some(1),
            _ => None,
        }
    }

    /// Takes the end of a session at the time `now`, in nanoseconds on a
    /// clock that does not go back, and says what to do.
    ///
    /// A session that ended on its own with code 0 or 1 ends the
    /// supervisor with that code. Any other end is a crash: the
    /// supervisor ends with `Abort` where the ledger says that the
    /// sessions crash in a loop, and else records the restart and asks for
    /// a new session. Once the supervisor has ended it stays so, and asks
    /// for no new session.
    pub fn on_exit(&mut self, exit: ChildExit, now: u64) -> (out: Action)
        requires
            old(self).wf(),
        ensures
            final(self).wf(),
            out == old(self)@.action(exit, now),
            final(self)@ == old(self)@.next(exit, now),
    {
        if let Some(last) = self.ended {
            return last;
        }
        let out = match exit {
            ChildExit::Exited(code) if code == 0 || code == 1 => Action::Exit(code),
            _ => {
                if self.ledger.record(now) {
                    Action::Abort
                } else {
                    Action::Respawn
                }
            },
        };
        match out {
            Action::Respawn => {},
            _ => {
                self.ended = Some(out);
            },
        }
        out
    }
}

/// Once a supervisor has ended, no end of a session makes it ask for a new
/// one: it answers as it did when it ended, and nothing changes.
pub proof fn ended_supervisor_stays_ended(s: SupervisorState, exit: ChildExit, now: u64)
    requires
        s.ended is Some,
        !(s.ended == Some(Action::Respawn)),
    ensures
        s.next(exit, now) == s,
        s.action(exit, now) == s.ended->0,
        !(s.action(exit, now) is Respawn),
{
}

/// The ledger never holds more restarts than its capacity, whatever
/// crashes it takes.
pub proof fn ledger_stays_within_capacity(s: LedgerState, now: u64)
    requires
        s.wf(),
    ensures
        s.after_crash(now).wf(),
        s.after_crash(now).capacity == s.capacity,
{
}

} // verus!
