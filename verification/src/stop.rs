//! The stop command's decisions: whom to signal, how long to wait for the
//! process to go, and what becomes of the PID record.
//!
//! The caller reads the record, sends the signals and probes the process; it
//! reports each result as a [`StopEvent`] and performs the [`StopAction`] it
//! gets back. A process that is still there when the wait is over is
//! reported, never killed.

use crate::pidfile::{parse_pid, pid_of};
use vstd::prelude::*;

verus! {

/// Probes made before the wait is given up.
pub const STOP_PROBES: u32 = 50;

/// Milliseconds before each probe.
pub const PROBE_INTERVAL_MS: u64 = 100;

/// A stop that succeeded.
#[derive(Clone, Copy, Debug, PartialEq, Eq, Structural)]
pub enum StopOutcome {
    /// The process is gone and its record deleted.
    Stopped,
    /// There was no record: nothing runs.
    NotRunning,
}

/// A stop that did not succeed.
#[derive(Clone, Copy, Debug, PartialEq, Eq, Structural)]
pub enum StopError {
    /// The process was still alive after the last probe.
    Timeout,
    /// The record's text names no process.
    BadRecord,
}

/// How the command ended.
#[derive(Clone, Copy, Debug, PartialEq, Eq, Structural)]
pub enum StopVerdict {
    /// The process is gone and its record deleted.
    Stopped,
    /// There was no record.
    NotRunning,
    /// The process outlived the wait; its record is kept.
    TimedOut,
    /// The record's text names no process; it is kept.
    BadRecord,
}

/// The verdict as a result: the two ways to succeed, the two ways to fail.
pub open spec fn verdict_result(v: StopVerdict) -> Result<StopOutcome, StopError> {
    match v {
        StopVerdict::Stopped => Ok(StopOutcome::Stopped),
        StopVerdict::NotRunning => Ok(StopOutcome::NotRunning),
        StopVerdict::TimedOut => Err(StopError::Timeout),
        StopVerdict::BadRecord => Err(StopError::BadRecord),
    }
}

impl StopVerdict {
    /// The verdict as a result.
    pub fn result(self) -> (r: Result<StopOutcome, StopError>)
        ensures
            r == verdict_result(self),
    {
        match self {
            StopVerdict::Stopped => Ok(StopOutcome::Stopped),
            StopVerdict::NotRunning => Ok(StopOutcome::NotRunning),
            StopVerdict::TimedOut => Err(StopError::Timeout),
            StopVerdict::BadRecord => Err(StopError::BadRecord),
        }
    }
}

/// Where the stop command stands.
#[derive(Clone, Copy, Debug, PartialEq, Eq, Structural)]
pub enum StopPhase {
    /// The termination signal is being sent.
    Signalling,
    /// The process was signalled and is probed.
    Waiting,
    /// The command is over.
    Done,
}

/// What the caller reports.
#[derive(Clone, Copy, Debug, PartialEq, Eq, Structural)]
pub enum StopEvent {
    /// The termination signal was delivered.
    SignalSent,
    /// The termination signal could not be delivered.
    SignalFailed,
    /// A probe found the process.
    Alive,
    /// A probe found no process.
    Gone,
}

/// What the caller is to do next.
#[derive(Clone, Copy, Debug, PartialEq, Eq, Structural)]
pub enum StopAction {
    /// Send the termination signal to `pid`; report `SignalSent` or
    /// `SignalFailed`.
    Signal { pid: i32 },
    /// Wait one interval, probe `pid`; report `Alive` or `Gone`.
    Probe { pid: i32 },
    /// Delete the PID record if `remove_record` says so, and end with `verdict`.
    Finish { verdict: StopVerdict, remove_record: bool },
    /// The event does not belong to the current phase: do nothing.
    Ignore,
}

/// The stop command's whole state.
#[derive(Clone, Copy, Debug, PartialEq, Eq, Structural)]
pub struct StopCommand {
    /// Current phase.
    pub phase: StopPhase,
    /// The process to stop.
    pub pid: i32,
    /// Probes that found the process alive.
    pub probes: u32,
}

/// The state in which nothing is left to do.
pub open spec fn stop_done(s: StopCommand) -> StopCommand {
    StopCommand { phase: StopPhase::Done, ..s }
}

/// The state and action with which the command starts, given the text of
/// the PID record, or `None` where there is no record.
pub open spec fn stop_start(record: Option<Seq<char>>) -> (StopCommand, StopAction) {
    let idle = StopCommand { phase: StopPhase::Done, pid: 0, probes: 0 };
    match record {
        None => (
            idle,
            StopAction::Finish { verdict: StopVerdict::NotRunning, remove_record: false },
        ),
        Some(text) => match pid_of(text) {
            None => (
                idle,
                StopAction::Finish { verdict: StopVerdict::BadRecord, remove_record: false },
            ),
            Some(pid) => (
                StopCommand { phase: StopPhase::Signalling, pid, probes: 0 },
                StopAction::Signal { pid },
            ),
        },
    }
}

/// The stop command's transition.
pub open spec fn stop_transition(s: StopCommand, event: StopEvent) -> (StopCommand, StopAction) {
    match (s.phase, event) {
        (StopPhase::Signalling, StopEvent::SignalSent) => (
            StopCommand { phase: StopPhase::Waiting, ..s },
            StopAction::Probe { pid: s.pid },
        ),
        (StopPhase::Signalling, StopEvent::SignalFailed) | (StopPhase::Waiting, StopEvent::Gone) => (
            stop_done(s),
            StopAction::Finish { verdict: StopVerdict::Stopped, remove_record: true },
        ),
        (StopPhase::Waiting, StopEvent::Alive) => if s.probes + 1 < STOP_PROBES {
            (
                StopCommand { probes: (s.probes + 1) as u32, ..s },
                StopAction::Probe { pid: s.pid },
            )
        } else {
            (
                stop_done(s),
                StopAction::Finish { verdict: StopVerdict::TimedOut, remove_record: false },
            )
        },
        _ => (s, StopAction::Ignore),
    }
}

impl StopCommand {
    /// The state's invariant: a process to signal has a positive PID, and
    /// the probes made stay under their bound.
    pub open spec fn wf(&self) -> bool {
        &&& self.probes < STOP_PROBES
        &&& self.phase != StopPhase::Done ==> self.pid > 0
    }

    /// Starts the command on the text of the PID record, `None` where no
    /// record exists.
    pub fn begin(record: Option<&str>) -> (r: (StopCommand, StopAction))
        ensures
            r == stop_start(
                match record {
                    Some(text) => Some(text@),
                    None => None,
                },
            ),
            r.0.wf(),
    {
        let idle = StopCommand { phase: StopPhase::Done, pid: 0, probes: 0 };
        match record {
            None => (
                idle,
                StopAction::Finish { verdict: StopVerdict::NotRunning, remove_record: false },
            ),
            Some(text) => match parse_pid(text) {
                None => (
                    idle,
                    StopAction::Finish { verdict: StopVerdict::BadRecord, remove_record: false },
                ),
                Some(pid) => (
                    StopCommand { phase: StopPhase::Signalling, pid, probes: 0 },
                    StopAction::Signal { pid },
                ),
            },
        }
    }

    /// Takes one event and returns the action to perform.
    pub fn step(&mut self, event: StopEvent) -> (action: StopAction)
        requires
            old(self).wf(),
        ensures
            (*final(self), action) == stop_transition(*old(self), event),
            final(self).wf(),
            final(self).pid == old(self).pid,
            (action is Finish) == (final(self).phase == StopPhase::Done && old(self).phase
                != StopPhase::Done),
    {
        match (self.phase, event) {
            (StopPhase::Signalling, StopEvent::SignalSent) => {
                self.phase = StopPhase::Waiting;
                StopAction::Probe { pid: self.pid }
            },
            (StopPhase::Signalling, StopEvent::SignalFailed) | (
                StopPhase::Waiting,
                StopEvent::Gone,
            ) => {
                self.phase = StopPhase::Done;
                StopAction::Finish { verdict: StopVerdict::Stopped, remove_record: true }
            },
            (StopPhase::Waiting, StopEvent::Alive) => {
                if self.probes + 1 < STOP_PROBES {
                    self.probes = self.probes + 1;
                    StopAction::Probe { pid: self.pid }
                } else {
                    self.phase = StopPhase::Done;
                    StopAction::Finish { verdict: StopVerdict::TimedOut, remove_record: false }
                }
            },
            _ => StopAction::Ignore,
        }
    }
}

/// The state after `n` more probes have found the process alive.
pub open spec fn after_alive(s: StopCommand, n: nat) -> StopCommand
    decreases n,
{
    if n == 0 {
        s
    } else {
        stop_transition(after_alive(s, (n - 1) as nat), StopEvent::Alive).0
    }
}

/// The state in which `pid` has just been signalled.
pub open spec fn signalled(pid: i32) -> StopCommand {
    StopCommand { phase: StopPhase::Waiting, pid, probes: 0 }
}

/// While fewer than `STOP_PROBES` probes have found the process alive, the
/// command keeps waiting and has counted them.
pub proof fn lemma_waits_while_alive(pid: i32, n: nat)
    requires
        n < STOP_PROBES,
    ensures
        after_alive(signalled(pid), n) == (StopCommand {
            phase: StopPhase::Waiting,
            pid,
            probes: n as u32,
        }),
    decreases n,
{
    if n > 0 {
        lemma_waits_while_alive(pid, (n - 1) as nat);
    }
}

/// A process that goes within the wait is reported `Stopped`, and its
/// record is deleted: whenever a probe finds it gone after fewer than
/// `STOP_PROBES` probes found it alive.
pub proof fn lemma_cooperative_stop(pid: i32, n: nat)
    requires
        n < STOP_PROBES,
    ensures
        stop_transition(after_alive(signalled(pid), n), StopEvent::Gone).1 == (StopAction::Finish {
            verdict: StopVerdict::Stopped,
            remove_record: true,
        }),
{
    lemma_waits_while_alive(pid, n);
}

/// A process that is alive at each of the `STOP_PROBES` probes is reported
/// as a timeout, and its record is kept.
pub proof fn lemma_stubborn_times_out(pid: i32)
    ensures
        after_alive(signalled(pid), STOP_PROBES as nat).phase == StopPhase::Done,
        stop_transition(
            after_alive(signalled(pid), (STOP_PROBES - 1) as nat),
            StopEvent::Alive,
        ).1 == (StopAction::Finish { verdict: StopVerdict::TimedOut, remove_record: false }),
{
    lemma_waits_while_alive(pid, (STOP_PROBES - 1) as nat);
    assert(after_alive(signalled(pid), STOP_PROBES as nat) == stop_transition(
        after_alive(signalled(pid), (STOP_PROBES - 1) as nat),
        StopEvent::Alive,
    ).0);
}

} // verus!
