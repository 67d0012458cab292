//! Capture sessions: at most one running process per capture kind, and the
//! graceful-stop protocol that ends one.
use vstd::prelude::*;

use crate::error::SupervisorError;

verus! {

/// The state of one capture kind: idle, or running with the handle of its
/// process. Each kind (screen, camera, preview) has a slot of its own.
pub struct SessionSlot<H> {
    handle: Option<H>,
}

impl<H> View for SessionSlot<H> {
    type V = Option<H>;

    closed spec fn view(&self) -> Option<H> {
        self.handle
    }
}

/// The slot and the result after a start with handle `h` on slot state `s`.
pub open spec fn after_start<H>(s: Option<H>, h: H) -> (Option<H>, Result<(), SupervisorError>) {
    match s {
        Some(running) => (Some(running), Err(SupervisorError::AlreadyRunning)),
        None => (Some(h), Ok(())),
    }
}

/// The slot and the result after taking the handle out of slot state `s`.
pub open spec fn after_take<H>(s: Option<H>) -> (Option<H>, Result<H, SupervisorError>) {
    match s {
        Some(h) => (None, Ok(h)),
        None => (None, Err(SupervisorError::NoProcess)),
    }
}

impl<H> SessionSlot<H> {
    /// An idle slot.
    pub fn new() -> (r: Self)
        ensures
            r@ is None,
    {
        SessionSlot { handle: None }
    }

    /// Whether a session of this kind is running.
    pub fn is_running(&self) -> (r: bool)
        ensures
            r == self@ is Some,
    {
        self.handle.is_some()
    }

    /// Fails with `AlreadyRunning` when a session is running; a caller checks
    /// this before it spawns a process.
    pub fn ensure_idle(&self) -> (r: Result<(), SupervisorError>)
        ensures
            r == (if self@ is Some {
                Err::<(), SupervisorError>(SupervisorError::AlreadyRunning)
            } else {
                Ok(())
            }),
    {
        if self.handle.is_some() {
            Err(SupervisorError::AlreadyRunning)
        } else {
            Ok(())
        }
    }

    /// Records a running session with process `h`; when one is running
    /// already, fails with `AlreadyRunning` and keeps the running one.
    pub fn start(&mut self, h: H) -> (r: Result<(), SupervisorError>)
        ensures
            (final(self)@, r) == after_start(old(self)@, h),
    {
        if self.handle.is_some() {
            Err(SupervisorError::AlreadyRunning)
        } else {
            self.handle = Some(h);
            Ok(())
        }
    }

    /// Takes the running process out, leaving the slot idle; fails with
    /// `NoProcess` when none runs.
    pub fn take(&mut self) -> (r: Result<H, SupervisorError>)
        ensures
            (final(self)@, r) == after_take(old(self)@),
    {
        match self.handle.take() {
            Some(h) => Ok(h),
            None => Err(SupervisorError::NoProcess),
        }
    }
}

/// Why a stop did not end cleanly (the slot is idle either way).
#[derive(Debug, Clone, Copy, PartialEq, Eq)]
pub enum StopFailure {
    /// The forced termination could not be delivered.
    KillFailed,
    /// Waiting for the process to exit reported an error.
    WaitFailed,
}

/// What the caller does next while stopping a process.
#[derive(Debug, Clone, Copy, PartialEq, Eq)]
pub enum StopAction {
    /// Write the quit byte to the process's input and close it.
    WriteQuit,
    /// Terminate the process by force.
    Kill,
    /// Block until the process has exited.
    Wait,
    /// The stop is over, with this outcome.
    Finish(Result<(), StopFailure>),
}

/// Where a stop stands.
#[derive(Debug, Clone, Copy, PartialEq, Eq)]
pub enum StopPhase {
    Writing,
    Killing,
    Waiting,
    Done,
}

/// The byte that asks the engine to quit cleanly.
pub const QUIT_BYTE: u8 = 0x71;

/// The first step of a stop: a graceful quit through the process's input
/// when it has one, else a forced termination.
pub open spec fn stop_start(has_input: bool) -> (StopPhase, StopAction) {
    if has_input {
        (StopPhase::Writing, StopAction::WriteQuit)
    } else {
        (StopPhase::Killing, StopAction::Kill)
    }
}

/// The step after the action of phase `p` succeeded (`ok`) or failed: a
/// failed quit falls back to a kill; after any signal that was delivered the
/// caller waits; the wait ends the stop whatever it reports.
pub open spec fn stop_next(p: StopPhase, ok: bool) -> (StopPhase, StopAction) {
    match p {
        StopPhase::Writing => if ok {
            (StopPhase::Waiting, StopAction::Wait)
        } else {
            (StopPhase::Killing, StopAction::Kill)
        },
        StopPhase::Killing => if ok {
            (StopPhase::Waiting, StopAction::Wait)
        } else {
            (StopPhase::Done, StopAction::Finish(Err(StopFailure::KillFailed)))
        },
        StopPhase::Waiting => if ok {
            (StopPhase::Done, StopAction::Finish(Ok(())))
        } else {
            (StopPhase::Done, StopAction::Finish(Err(StopFailure::WaitFailed)))
        },
        StopPhase::Done => (StopPhase::Done, StopAction::Finish(Ok(()))),
    }
}

/// The decisions of a stop, driven by the caller that performs each action.
pub struct StopProtocol {
    pub phase: StopPhase,
}

impl StopProtocol {
    /// Begins a stop of a process that has an input channel or not.
    pub fn begin(has_input: bool) -> (r: (StopProtocol, StopAction))
        ensures
            (r.0.phase, r.1) == stop_start(has_input),
    {
        if has_input {
            (StopProtocol { phase: StopPhase::Writing }, StopAction::WriteQuit)
        } else {
            (StopProtocol { phase: StopPhase::Killing }, StopAction::Kill)
        }
    }

    /// Reports whether the last action succeeded and returns the next one.
    pub fn next(&mut self, ok: bool) -> (r: StopAction)
        requires
            old(self).phase != StopPhase::Done,
        ensures
            (final(self).phase, r) == stop_next(old(self).phase, ok),
    {
        let (phase, action) = match self.phase {
            StopPhase::Writing => if ok {
                (StopPhase::Waiting, StopAction::Wait)
            } else {
                (StopPhase::Killing, StopAction::Kill)
            },
            StopPhase::Killing => if ok {
                (StopPhase::Waiting, StopAction::Wait)
            } else {
                (StopPhase::Done, StopAction::Finish(Err(StopFailure::KillFailed)))
            },
            StopPhase::Waiting => if ok {
                (StopPhase::Done, StopAction::Finish(Ok(())))
            } else {
                (StopPhase::Done, StopAction::Finish(Err(StopFailure::WaitFailed)))
            },
            StopPhase::Done => (StopPhase::Done, StopAction::Finish(Ok(()))),
        };
        self.phase = phase;
        action
    }
}

/// Starting a kind twice leaves the first process running and refuses the
/// second with `AlreadyRunning`; stopping an idle kind reports `NoProcess`;
/// and a stop leaves the slot idle whether or not a process was there.
pub proof fn lemma_session_slot_laws<H>(first: H, second: H, s: Option<H>)
    ensures
        after_start(after_start(None, first).0, second) == (
            Some(first),
            Err::<(), SupervisorError>(SupervisorError::AlreadyRunning),
        ),
        after_start(None, first).1 is Ok,
        after_take::<H>(None).1 == Err::<H, SupervisorError>(SupervisorError::NoProcess),
        after_take(s).0 is None,
{
}

/// Whatever each signal reports, a stop asks for at most three actions and
/// then finishes; it always waits for the process after a signal that was
/// delivered, and it never waits before a signal was delivered.
pub proof fn lemma_stop_terminates(has_input: bool, a: bool, b: bool, c: bool)
    ensures
        ({
            let (p1, x1) = stop_start(has_input);
            let (p2, x2) = stop_next(p1, a);
            let (p3, x3) = stop_next(p2, b);
            let (p4, x4) = stop_next(p3, c);
            &&& x1 != StopAction::Wait
            &&& (p2 == StopPhase::Done || p3 == StopPhase::Done || p4 == StopPhase::Done)
            &&& (x2 == StopAction::Wait || x3 == StopAction::Wait || x4 == StopAction::Wait
                || x2 == StopAction::Finish(Err(StopFailure::KillFailed))
                || x3 == StopAction::Finish(Err(StopFailure::KillFailed)))
        }),
{
}

} // verus!
