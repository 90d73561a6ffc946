//! The supervisor's decisions: when to launch the child, when to restart it,
//! when to give up, and what becomes of the PID record.
//!
//! The caller owns the child process, the clock and the files. It performs the
//! [`Action`] it is handed and reports what it then observed as an [`Event`],
//! together with the two cancellation inputs: the running flag, which the
//! signal handler clears once, and the presence of the stop flag file.

use vstd::prelude::*;

verus! {

/// Restarts granted to a failing child before the supervisor gives up.
pub const DEFAULT_MAX_RESTARTS: u32 = 4;

/// Seconds to wait before a restart.
pub const BACKOFF_SECONDS: u64 = 10;

/// Milliseconds between two polls of the child's exit status.
pub const POLL_INTERVAL_MS: u64 = 500;

/// Size in bytes above which the log file is rotated.
pub const LOG_ROTATE_BYTES: u64 = 1048576;

/// Bounded count of restarts.
#[derive(Clone, Copy, Debug, PartialEq, Eq, Structural)]
pub struct RetryState {
    /// Restarts used so far.
    pub attempts: u32,
    /// Restarts allowed in all.
    pub max: u32,
}

impl RetryState {
    /// The count never exceeds its bound.
    pub open spec fn wf(&self) -> bool {
        self.attempts <= self.max
    }

    /// A fresh count with room for `max` restarts.
    pub fn new(max: u32) -> (r: RetryState)
        ensures
            r == (RetryState { attempts: 0, max }),
            r.wf(),
    {
        RetryState { attempts: 0, max }
    }

    /// Whether every restart has been used.
    pub fn exhausted(&self) -> (b: bool)
        ensures
            b == (self.attempts >= self.max),
    {
        self.attempts >= self.max
    }

    /// Takes one restart if any is left, and says whether it did.
    pub fn record_failure(&mut self) -> (granted: bool)
        requires
            old(self).wf(),
        ensures
            final(self).wf(),
            final(self).max == old(self).max,
            granted == (old(self).attempts < old(self).max),
            granted ==> final(self).attempts == old(self).attempts + 1,
            !granted ==> final(self).attempts == old(self).attempts,
    {
        if self.attempts < self.max {
            self.attempts = self.attempts + 1;
            true
        } else {
            false
        }
    }
}

/// Where the supervisor stands.
#[derive(Clone, Copy, Debug, PartialEq, Eq, Structural)]
pub enum Phase {
    /// Nothing has been launched yet.
    Idle,
    /// A launch has been ordered and its result is awaited.
    Starting,
    /// A child is alive and polled.
    Running,
    /// A child failed; the wait before its restart is under way.
    Backoff,
    /// The child ended successfully. Final.
    Exited,
    /// The child kept failing until no restart was left. Final.
    Failed,
    /// A stop was requested. Final.
    Stopping,
    /// The child could not be launched. Final.
    Aborted,
}

/// What the caller saw of the child at a poll.
#[derive(Clone, Copy, Debug, PartialEq, Eq, Structural)]
pub enum ChildStatus {
    /// Still running.
    Alive,
    /// Ended with success.
    Succeeded,
    /// Ended without success.
    Crashed,
    /// The poll itself failed.
    Unknown,
}

/// What the caller reports.
#[derive(Clone, Copy, Debug, PartialEq, Eq, Structural)]
pub enum Event {
    /// The supervisor is asked to begin.
    Begin,
    /// The child was launched under this PID.
    Spawned { pid: u32 },
    /// The child could not be launched, or its configuration not rendered.
    SpawnFailed,
    /// The child was polled.
    Polled { status: ChildStatus },
    /// The wait before a restart is over.
    BackoffElapsed,
}

/// How the invocation ends.
#[derive(Clone, Copy, Debug, PartialEq, Eq, Structural)]
pub enum ExitKind {
    /// Exit code zero: the child succeeded, or a stop was honoured.
    Graceful,
    /// Non-zero exit code: launch failure or restarts exhausted.
    Failure,
}

/// What the caller is to do next.
#[derive(Clone, Copy, Debug, PartialEq, Eq, Structural)]
pub enum Action {
    /// Rotate the log if due, render the configuration if a template was
    /// given, launch the child; report `Spawned` or `SpawnFailed`.
    Launch,
    /// Write the PID record, arm the signal bridge for this PID, then poll
    /// after one interval and report `Polled`.
    Track { pid: u32 },
    /// Poll again after one interval and report `Polled`.
    Poll,
    /// Rotate the log if due, wait this many seconds, report `BackoffElapsed`.
    Backoff { seconds: u64 },
    /// Kill the child named by `kill`, if any, delete the PID record and end
    /// the invocation.
    Finish { kill: Option<u32>, exit: ExitKind },
    /// The event does not belong to the current phase: do nothing.
    Ignore,
}

/// The supervisor's whole state.
#[derive(Clone, Copy, Debug, PartialEq, Eq, Structural)]
pub struct Supervisor {
    /// Current phase.
    pub phase: Phase,
    /// Restart count.
    pub retry: RetryState,
    /// The PID that the PID record holds, if the record exists.
    pub record: Option<u32>,
}

/// Whether a stop is requested: the running flag was cleared or the stop flag
/// file exists.
pub open spec fn cancelled(running: bool, stop_flag: bool) -> bool {
    !running || stop_flag
}

/// Whether `phase` is final.
pub open spec fn is_final(phase: Phase) -> bool {
    phase == Phase::Exited || phase == Phase::Failed || phase == Phase::Stopping || phase
        == Phase::Aborted
}

/// The state that ends the invocation from `s`: the PID record is gone.
pub open spec fn ended(s: Supervisor, phase: Phase) -> Supervisor {
    Supervisor { phase, retry: s.retry, record: None }
}

/// The supervisor's transition: the state and the action that follow from
/// state `s` on `event`, given whether a stop is requested.
pub open spec fn transition(s: Supervisor, event: Event, cancel: bool) -> (Supervisor, Action) {
    match (s.phase, event) {
        (Phase::Idle, Event::Begin) | (Phase::Backoff, Event::BackoffElapsed) => if cancel {
            (ended(s, Phase::Stopping), Action::Finish { kill: None, exit: ExitKind::Graceful })
        } else {
            (Supervisor { phase: Phase::Starting, ..s }, Action::Launch)
        },
        (Phase::Starting, Event::Spawned { pid }) => (
            Supervisor { phase: Phase::Running, retry: s.retry, record: Some(pid) },
            Action::Track { pid },
        ),
        (Phase::Starting, Event::SpawnFailed) => (
            ended(s, Phase::Aborted),
            Action::Finish { kill: None, exit: ExitKind::Failure },
        ),
        (Phase::Running, Event::Polled { status }) => match status {
            ChildStatus::Succeeded => (
                ended(s, Phase::Exited),
                Action::Finish { kill: None, exit: ExitKind::Graceful },
            ),
            ChildStatus::Crashed => if s.retry.attempts < s.retry.max {
                (
                    Supervisor {
                        phase: Phase::Backoff,
                        retry: RetryState {
                            attempts: (s.retry.attempts + 1) as u32,
                            max: s.retry.max,
                        },
                        record: s.record,
                    },
                    Action::Backoff { seconds: BACKOFF_SECONDS },
                )
            } else {
                (
                    ended(s, Phase::Failed),
                    Action::Finish { kill: None, exit: ExitKind::Failure },
                )
            },
            ChildStatus::Alive => if cancel {
                (
                    ended(s, Phase::Stopping),
                    Action::Finish { kill: s.record, exit: ExitKind::Graceful },
                )
            } else {
                (s, Action::Poll)
            },
            ChildStatus::Unknown => if cancel {
                (
                    ended(s, Phase::Stopping),
                    Action::Finish { kill: s.record, exit: ExitKind::Graceful },
                )
            } else {
                (
                    Supervisor { phase: Phase::Backoff, ..s },
                    Action::Backoff { seconds: BACKOFF_SECONDS },
                )
            },
        },
        _ => (s, Action::Ignore),
    }
}

impl Supervisor {
    /// The state's invariant: the restart count is within its bound, a
    /// running child is on record, and no record outlives the invocation.
    pub open spec fn wf(&self) -> bool {
        &&& self.retry.wf()
        &&& self.phase == Phase::Running ==> self.record is Some
        &&& (is_final(self.phase) || self.phase == Phase::Idle) ==> self.record is None
    }

    /// An idle supervisor that grants `max` restarts.
    pub fn new(max: u32) -> (s: Supervisor)
        ensures
            s == (Supervisor {
                phase: Phase::Idle,
                retry: RetryState { attempts: 0, max },
                record: None,
            }),
            s.wf(),
    {
        Supervisor { phase: Phase::Idle, retry: RetryState::new(max), record: None }
    }

    /// Whether the invocation is over.
    pub fn finished(&self) -> (b: bool)
        ensures
            b == is_final(self.phase),
    {
        self.phase == Phase::Exited || self.phase == Phase::Failed || self.phase
            == Phase::Stopping || self.phase == Phase::Aborted
    }

    /// Takes one event and returns the action to perform.
    ///
    /// `running` is the running flag as the caller reads it now, `stop_flag`
    /// whether the stop flag file exists now.
    pub fn step(&mut self, event: Event, running: bool, stop_flag: bool) -> (action: Action)
        requires
            old(self).wf(),
        ensures
            (*final(self), action) == transition(*old(self), event, cancelled(running, stop_flag)),
            final(self).wf(),
            final(self).retry.max == old(self).retry.max,
            final(self).retry.attempts >= old(self).retry.attempts,
            is_final(old(self).phase) ==> *final(self) == *old(self) && action == Action::Ignore,
            action == Action::Launch ==> !cancelled(running, stop_flag),
            (action is Finish) == (is_final(final(self).phase) && !is_final(old(self).phase)),
    {
        let cancel = !running || stop_flag;
        match (self.phase, event) {
            (Phase::Idle, Event::Begin) | (Phase::Backoff, Event::BackoffElapsed) => {
                if cancel {
                    self.finish(Phase::Stopping, None, ExitKind::Graceful)
                } else {
                    self.phase = Phase::Starting;
                    Action::Launch
                }
            },
            (Phase::Starting, Event::Spawned { pid }) => {
                self.phase = Phase::Running;
                self.record = Some(pid);
                Action::Track { pid }
            },
            (Phase::Starting, Event::SpawnFailed) => {
                self.finish(Phase::Aborted, None, ExitKind::Failure)
            },
            (Phase::Running, Event::Polled { status }) => {
                match status {
                    ChildStatus::Succeeded => self.finish(
                        Phase::Exited,
                        None,
                        ExitKind::Graceful,
                    ),
                    ChildStatus::Crashed => {
                        if self.retry.record_failure() {
                            self.phase = Phase::Backoff;
                            Action::Backoff { seconds: BACKOFF_SECONDS }
                        } else {
                            self.finish(Phase::Failed, None, ExitKind::Failure)
                        }
                    },
                    ChildStatus::Alive => {
                        if cancel {
                            let child = self.record;
                            self.finish(Phase::Stopping, child, ExitKind::Graceful)
                        } else {
                            Action::Poll
                        }
                    },
                    ChildStatus::Unknown => {
                        if cancel {
                            let child = self.record;
                            self.finish(Phase::Stopping, child, ExitKind::Graceful)
                        } else {
                            self.phase = Phase::Backoff;
                            Action::Backoff { seconds: BACKOFF_SECONDS }
                        }
                    },
                }
            },
            _ => Action::Ignore,
        }
    }

    fn finish(&mut self, phase: Phase, kill: Option<u32>, exit: ExitKind) -> (action: Action)
        ensures
            *final(self) == ended(*old(self), phase),
            action == (Action::Finish { kill, exit }),
    {
        self.phase = phase;
        self.record = None;
        Action::Finish { kill, exit }
    }
}

/// Whether a log file of `size` bytes is due for rotation.
pub fn should_rotate(size: u64) -> (b: bool)
    ensures
        b == (size > LOG_ROTATE_BYTES),
{
    size > LOG_ROTATE_BYTES
}

/// The state after one more child was launched under `pid`, crashed, and the
/// wait before its restart went by, with no stop requested meanwhile.
pub open spec fn after_crash(s: Supervisor, pid: u32) -> Supervisor {
    let spawned = transition(s, Event::Spawned { pid }, false).0;
    let crashed = transition(spawned, Event::Polled { status: ChildStatus::Crashed }, false).0;
    transition(crashed, Event::BackoffElapsed, false).0
}

/// The state after the children launched under `pids`, one after the other,
/// have all crashed.
pub open spec fn after_crashes(s: Supervisor, pids: Seq<u32>) -> Supervisor
    decreases pids.len(),
{
    if pids.len() == 0 {
        s
    } else {
        after_crash(after_crashes(s, pids.drop_last()), pids.last())
    }
}

/// The state in which the first launch has been ordered.
pub open spec fn begun(max: u32) -> Supervisor {
    Supervisor { phase: Phase::Starting, retry: RetryState { attempts: 0, max }, record: None }
}

/// A child that always crashes is restarted exactly `max` times: while no
/// more than `max` children have crashed, the supervisor has ordered one
/// restart for each of them and is launching again.
pub proof fn lemma_crashes_are_retried(max: u32, pids: Seq<u32>)
    requires
        pids.len() <= max,
    ensures
        after_crashes(begun(max), pids).phase == Phase::Starting,
        after_crashes(begun(max), pids).retry == (RetryState {
            attempts: pids.len() as u32,
            max,
        }),
    decreases pids.len(),
{
    if pids.len() > 0 {
        lemma_crashes_are_retried(max, pids.drop_last());
    }
}

/// Once `max` restarts have been used, the next crash ends the invocation:
/// the supervisor reports `Failed`, asks for a non-zero exit, and the PID
/// record is gone.
pub proof fn lemma_retries_are_bounded(max: u32, pids: Seq<u32>, pid: u32)
    requires
        pids.len() == max,
    ensures
        ({
            let spawned = transition(
                after_crashes(begun(max), pids),
                Event::Spawned { pid },
                false,
            ).0;
            let last = transition(spawned, Event::Polled { status: ChildStatus::Crashed }, false);
            &&& last.0.phase == Phase::Failed
            &&& last.0.record is None
            &&& last.1 == (Action::Finish { kill: None, exit: ExitKind::Failure })
        }),
{
    lemma_crashes_are_retried(max, pids);
}

/// A final state answers every event with `Ignore` and stays as it is, so
/// nothing is launched after the invocation has ended.
pub proof fn lemma_final_is_absorbing(s: Supervisor, event: Event, cancel: bool)
    requires
        is_final(s.phase),
    ensures
        transition(s, event, cancel) == (s, Action::Ignore),
{
}

/// What the signal bridge is to do after a look at the running flag.
#[derive(Clone, Copy, Debug, PartialEq, Eq, Structural)]
pub enum BridgeAction {
    /// The flag is set: look again after one poll interval.
    Wait,
    /// The flag was cleared: send the termination signal to the child.
    Terminate { pid: u32 },
    /// The signal has been sent: the bridge is done.
    Exit,
}

/// The signal bridge: it watches the running flag on behalf of one child and
/// tells that child, once, that the flag was cleared.
#[derive(Clone, Copy, Debug, PartialEq, Eq, Structural)]
pub struct Bridge {
    /// The child to tell.
    pub pid: u32,
    /// Whether the child has been told.
    pub signalled: bool,
}

/// The bridge's transition on one look at the running flag.
pub open spec fn bridge_transition(b: Bridge, running: bool) -> (Bridge, BridgeAction) {
    if b.signalled {
        (b, BridgeAction::Exit)
    } else if running {
        (b, BridgeAction::Wait)
    } else {
        (Bridge { pid: b.pid, signalled: true }, BridgeAction::Terminate { pid: b.pid })
    }
}

/// The bridge after it has looked at each flag value of `looks` in turn.
pub open spec fn bridge_after(b: Bridge, looks: Seq<bool>) -> Bridge
    decreases looks.len(),
{
    if looks.len() == 0 {
        b
    } else {
        bridge_transition(bridge_after(b, looks.drop_last()), looks.last()).0
    }
}

impl Bridge {
    /// A bridge for the child `pid` that has sent nothing yet.
    pub fn new(pid: u32) -> (b: Bridge)
        ensures
            b == (Bridge { pid, signalled: false }),
    {
        Bridge { pid, signalled: false }
    }

    /// Takes one look at the running flag and returns what to do.
    pub fn observe(&mut self, running: bool) -> (action: BridgeAction)
        ensures
            (*final(self), action) == bridge_transition(*old(self), running),
    {
        if self.signalled {
            BridgeAction::Exit
        } else if running {
            BridgeAction::Wait
        } else {
            self.signalled = true;
            BridgeAction::Terminate { pid: self.pid }
        }
    }
}

/// The child is told once and no more: after a bridge has sent its signal,
/// whatever it sees of the flag later, it only ever answers `Exit`.
pub proof fn lemma_bridge_signals_once(b: Bridge, looks: Seq<bool>, running: bool)
    requires
        b.signalled,
    ensures
        bridge_after(b, looks) == b,
        bridge_transition(bridge_after(b, looks), running).1 == BridgeAction::Exit,
    decreases looks.len(),
{
    if looks.len() > 0 {
        lemma_bridge_signals_once(b, looks.drop_last(), looks.last());
    }
}

} // verus!
