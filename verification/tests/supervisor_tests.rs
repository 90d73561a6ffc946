use sbc::pidfile::parse_pid;
use sbc::stop::{
    StopAction, StopCommand, StopError, StopEvent, StopOutcome, StopPhase, StopVerdict,
    PROBE_INTERVAL_MS, STOP_PROBES,
};
use sbc::supervisor::{
    should_rotate, Action, Bridge, BridgeAction, ChildStatus, Event, ExitKind, Phase, RetryState, Supervisor,
    BACKOFF_SECONDS, DEFAULT_MAX_RESTARTS, LOG_ROTATE_BYTES, POLL_INTERVAL_MS,
};

fn crashed() -> Event {
    Event::Polled { status: ChildStatus::Crashed }
}

#[test]
fn constants_have_their_values() {
    assert_eq!(DEFAULT_MAX_RESTARTS, 4);
    assert_eq!(BACKOFF_SECONDS, 10);
    assert_eq!(POLL_INTERVAL_MS, 500);
    assert_eq!(LOG_ROTATE_BYTES, 1024 * 1024);
    assert_eq!(STOP_PROBES, 50);
    assert_eq!(PROBE_INTERVAL_MS, 100);
}

#[test]
fn retry_state_counts_up_to_max() {
    let mut r = RetryState::new(2);
    assert_eq!(r, RetryState { attempts: 0, max: 2 });
    assert!(!r.exhausted());
    assert!(r.record_failure());
    assert!(r.record_failure());
    assert!(r.exhausted());
    assert!(!r.record_failure());
    assert_eq!(r, RetryState { attempts: 2, max: 2 });
}

#[test]
fn successful_child_ends_gracefully() {
    let mut s = Supervisor::new(4);
    assert_eq!(s.step(Event::Begin, true, false), Action::Launch);
    assert_eq!(s.phase, Phase::Starting);
    assert_eq!(s.step(Event::Spawned { pid: 77 }, true, false), Action::Track { pid: 77 });
    assert_eq!(s.record, Some(77));
    assert_eq!(s.step(Event::Polled { status: ChildStatus::Alive }, true, false), Action::Poll);
    assert_eq!(
        s.step(Event::Polled { status: ChildStatus::Succeeded }, true, false),
        Action::Finish { kill: None, exit: ExitKind::Graceful }
    );
    assert_eq!(s.phase, Phase::Exited);
    assert_eq!(s.record, None);
    assert!(s.finished());
}

#[test]
fn always_failing_child_is_restarted_max_times() {
    let max = 4;
    let mut s = Supervisor::new(max);
    assert_eq!(s.step(Event::Begin, true, false), Action::Launch);
    let mut launches = 1;
    let mut restarts = 0;
    loop {
        assert_eq!(
            s.step(Event::Spawned { pid: 100 + launches }, true, false),
            Action::Track { pid: 100 + launches }
        );
        match s.step(crashed(), true, false) {
            Action::Backoff { seconds } => {
                assert_eq!(seconds, 10);
                assert_eq!(s.step(Event::BackoffElapsed, true, false), Action::Launch);
                launches += 1;
                restarts += 1;
            }
            Action::Finish { kill, exit } => {
                assert_eq!(kill, None);
                assert_eq!(exit, ExitKind::Failure);
                break;
            }
            other => panic!("unexpected action {:?}", other),
        }
    }
    assert_eq!(restarts, max);
    assert_eq!(s.phase, Phase::Failed);
    assert_eq!(s.record, None);
    assert_eq!(s.retry, RetryState { attempts: max, max });
    assert_eq!(s.step(Event::Begin, true, false), Action::Ignore);
    assert_eq!(s.step(Event::BackoffElapsed, true, false), Action::Ignore);
}

#[test]
fn no_restarts_allowed_fails_at_first_crash() {
    let mut s = Supervisor::new(0);
    s.step(Event::Begin, true, false);
    s.step(Event::Spawned { pid: 5 }, true, false);
    assert_eq!(s.step(crashed(), true, false), Action::Finish { kill: None, exit: ExitKind::Failure });
    assert_eq!(s.phase, Phase::Failed);
}

#[test]
fn spawn_failure_is_fatal() {
    let mut s = Supervisor::new(4);
    s.step(Event::Begin, true, false);
    assert_eq!(
        s.step(Event::SpawnFailed, true, false),
        Action::Finish { kill: None, exit: ExitKind::Failure }
    );
    assert_eq!(s.phase, Phase::Aborted);
    assert_eq!(s.retry.attempts, 0);
}

#[test]
fn cleared_running_flag_kills_live_child() {
    let mut s = Supervisor::new(4);
    s.step(Event::Begin, true, false);
    s.step(Event::Spawned { pid: 9 }, true, false);
    assert_eq!(
        s.step(Event::Polled { status: ChildStatus::Alive }, false, false),
        Action::Finish { kill: Some(9), exit: ExitKind::Graceful }
    );
    assert_eq!(s.phase, Phase::Stopping);
    assert_eq!(s.record, None);
}

#[test]
fn stop_flag_is_honoured_before_launch_and_after_backoff() {
    let mut s = Supervisor::new(4);
    assert_eq!(
        s.step(Event::Begin, true, true),
        Action::Finish { kill: None, exit: ExitKind::Graceful }
    );
    assert_eq!(s.phase, Phase::Stopping);

    let mut t = Supervisor::new(4);
    t.step(Event::Begin, true, false);
    t.step(Event::Spawned { pid: 3 }, true, false);
    assert_eq!(t.step(crashed(), true, false), Action::Backoff { seconds: 10 });
    assert_eq!(t.record, Some(3));
    assert_eq!(
        t.step(Event::BackoffElapsed, false, false),
        Action::Finish { kill: None, exit: ExitKind::Graceful }
    );
    assert_eq!(t.record, None);
}

#[test]
fn failed_poll_waits_without_using_a_restart() {
    let mut s = Supervisor::new(1);
    s.step(Event::Begin, true, false);
    s.step(Event::Spawned { pid: 3 }, true, false);
    assert_eq!(
        s.step(Event::Polled { status: ChildStatus::Unknown }, true, false),
        Action::Backoff { seconds: 10 }
    );
    assert_eq!(s.retry.attempts, 0);
    assert_eq!(s.phase, Phase::Backoff);
}

#[test]
fn events_out_of_phase_are_ignored() {
    let mut s = Supervisor::new(4);
    let before = s;
    assert_eq!(s.step(Event::Spawned { pid: 1 }, true, false), Action::Ignore);
    assert_eq!(s.step(crashed(), true, false), Action::Ignore);
    assert_eq!(s, before);
}

#[test]
fn log_rotation_threshold() {
    assert!(!should_rotate(0));
    assert!(!should_rotate(1024 * 1024));
    assert!(should_rotate(1024 * 1024 + 1));
}

#[test]
fn parse_pid_reads_decimal() {
    assert_eq!(parse_pid("1234"), Some(1234));
    assert_eq!(parse_pid("  42\n"), Some(42));
    assert_eq!(parse_pid("+7"), Some(7));
    assert_eq!(parse_pid("007"), Some(7));
    assert_eq!(parse_pid("2147483647"), Some(2147483647));
}

#[test]
fn parse_pid_rejects_everything_else() {
    assert_eq!(parse_pid(""), None);
    assert_eq!(parse_pid("   "), None);
    assert_eq!(parse_pid("+"), None);
    assert_eq!(parse_pid("0"), None);
    assert_eq!(parse_pid("-5"), None);
    assert_eq!(parse_pid("12 34"), None);
    assert_eq!(parse_pid("12a"), None);
    assert_eq!(parse_pid("2147483648"), None);
    assert_eq!(parse_pid("99999999999999999999"), None);
    assert_eq!(parse_pid("١٢"), None);
}

#[test]
fn stop_without_record_is_not_running() {
    let (s, action) = StopCommand::begin(None);
    assert_eq!(action, StopAction::Finish { verdict: StopVerdict::NotRunning, remove_record: false });
    assert_eq!(s.phase, StopPhase::Done);
    assert_eq!(StopVerdict::NotRunning.result(), Ok(StopOutcome::NotRunning));
}

#[test]
fn stop_with_bad_record_is_refused() {
    let (_, action) = StopCommand::begin(Some("not a pid"));
    assert_eq!(action, StopAction::Finish { verdict: StopVerdict::BadRecord, remove_record: false });
    assert_eq!(StopVerdict::BadRecord.result(), Err(StopError::BadRecord));
}

#[test]
fn stop_of_cooperative_process() {
    let (mut s, action) = StopCommand::begin(Some("321\n"));
    assert_eq!(action, StopAction::Signal { pid: 321 });
    assert_eq!(s.step(StopEvent::SignalSent), StopAction::Probe { pid: 321 });
    assert_eq!(s.step(StopEvent::Alive), StopAction::Probe { pid: 321 });
    assert_eq!(s.step(StopEvent::Alive), StopAction::Probe { pid: 321 });
    assert_eq!(
        s.step(StopEvent::Gone),
        StopAction::Finish { verdict: StopVerdict::Stopped, remove_record: true }
    );
    assert_eq!(StopVerdict::Stopped.result(), Ok(StopOutcome::Stopped));
    assert_eq!(s.step(StopEvent::Gone), StopAction::Ignore);
}

#[test]
fn stop_signal_failure_counts_as_stopped() {
    let (mut s, _) = StopCommand::begin(Some("321"));
    assert_eq!(
        s.step(StopEvent::SignalFailed),
        StopAction::Finish { verdict: StopVerdict::Stopped, remove_record: true }
    );
}

#[test]
fn stop_times_out_after_fifty_probes() {
    let (mut s, _) = StopCommand::begin(Some("321"));
    s.step(StopEvent::SignalSent);
    let mut probes = 1;
    loop {
        match s.step(StopEvent::Alive) {
            StopAction::Probe { pid } => {
                assert_eq!(pid, 321);
                probes += 1;
            }
            StopAction::Finish { verdict, remove_record } => {
                assert_eq!(verdict, StopVerdict::TimedOut);
                assert!(!remove_record);
                break;
            }
            other => panic!("unexpected action {:?}", other),
        }
    }
    assert_eq!(probes, 50);
    assert_eq!(StopVerdict::TimedOut.result(), Err(StopError::Timeout));
}

#[test]
fn bridge_signals_exactly_once() {
    let mut bridge = Bridge::new(41);
    assert_eq!(bridge.observe(true), BridgeAction::Wait);
    assert_eq!(bridge.observe(true), BridgeAction::Wait);
    assert_eq!(bridge.observe(false), BridgeAction::Terminate { pid: 41 });
    assert_eq!(bridge.observe(false), BridgeAction::Exit);
    assert_eq!(bridge.observe(true), BridgeAction::Exit);
    assert_eq!(bridge, Bridge { pid: 41, signalled: true });
}
