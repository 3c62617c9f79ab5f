use stm15::run_loop::{keep_sleeping, ChildPoll, LoopAction, LoopEvent, RunLoop};
use stm15::tunnel::{TunnelState, TunnelStatus};

fn ended(exit: Option<&str>, stderr: Option<&str>) -> LoopEvent {
    LoopEvent::Ended {
        exit: exit.map(|s| s.to_string()),
        stderr: stderr.map(|s| s.to_string()),
        stopped: false,
    }
}

fn error_after(event: LoopEvent) -> String {
    let mut state = TunnelState::idle();
    let mut l = RunLoop::new();
    l.step(event, &mut state);
    state.last_error
}

#[test]
fn a_process_is_started_unless_the_tunnel_was_stopped() {
    let mut l = RunLoop::new();
    let mut state = TunnelState::idle();
    state.status = TunnelStatus::Running;
    state.start_time = Some(3);
    state.last_error = "kept".to_string();
    assert_eq!(l.step(LoopEvent::DelayOver { stopped: false }, &mut state), LoopAction::Spawn);
    assert_eq!(l.step(LoopEvent::DelayOver { stopped: true }, &mut state), LoopAction::Leave);
    assert_eq!(l.step(LoopEvent::Ready { stopped: false }, &mut state), LoopAction::Spawn);
    assert_eq!(state.status, TunnelStatus::Running);
    assert_eq!(state.start_time, Some(3));
    assert_eq!(l.step(LoopEvent::Ready { stopped: true }, &mut state), LoopAction::Finish);
    assert_eq!(state.status, TunnelStatus::Stopped);
    assert_eq!(state.start_time, None);
    assert_eq!(state.last_error, "kept");
}

#[test]
fn a_first_start_means_running() {
    let mut l = RunLoop::new();
    let mut state = TunnelState::idle();
    state.last_error = "old".to_string();
    assert_eq!(l.step(LoopEvent::Spawned { now: 42 }, &mut state), LoopAction::Poll);
    assert_eq!(state.status, TunnelStatus::Running);
    assert_eq!(state.start_time, Some(42));
    assert_eq!(state.last_error, "");
}

#[test]
fn a_start_after_a_failure_does_not_mean_running() {
    let mut l = RunLoop::new();
    let mut state = TunnelState::idle();
    l.step(ended(Some("1"), None), &mut state);
    l.step(LoopEvent::Spawned { now: 9 }, &mut state);
    assert_eq!(state.status, TunnelStatus::Reconnecting { failures: 1, backoff: 2 });
    assert_eq!(state.start_time, Some(9));
    assert_eq!(state.last_error, "");
}

#[test]
fn pauses_grow_from_a_second_to_a_minute() {
    let mut l = RunLoop::new();
    let mut state = TunnelState::idle();
    for (n, secs) in [1, 2, 4, 8, 16, 32, 60, 60, 60].into_iter().enumerate() {
        let event = if n % 2 == 0 {
            LoopEvent::SpawnFailed { error: "no".to_string() }
        } else {
            ended(Some("1"), Some("err"))
        };
        assert_eq!(l.step(event, &mut state), LoopAction::Sleep { secs });
        assert_eq!(
            state.status,
            TunnelStatus::Reconnecting { failures: n as u32 + 1, backoff: secs }
        );
        assert_eq!(l.failures, n as u32 + 1);
    }
}

#[test]
fn a_process_is_watched() {
    let mut l = RunLoop::new();
    let mut state = TunnelState::idle();
    let mut look = |poll, stopped| l.step(LoopEvent::Polled { poll, stopped }, &mut state);
    assert_eq!(look(ChildPoll::Exited, false), LoopAction::Collect);
    assert_eq!(look(ChildPoll::Exited, true), LoopAction::Collect);
    assert_eq!(look(ChildPoll::Alive, false), LoopAction::PollLater);
    assert_eq!(look(ChildPoll::Alive, true), LoopAction::Kill);
    assert_eq!(look(ChildPoll::Lost, false), LoopAction::Abandon);
    assert_eq!(look(ChildPoll::Lost, true), LoopAction::Abandon);
    assert_eq!(l.failures, 0);
}

#[test]
fn the_end_of_a_stopped_process_is_no_failure() {
    let mut l = RunLoop::new();
    let mut state = TunnelState::idle();
    state.last_error = "kept".to_string();
    let event = LoopEvent::Ended { exit: Some("0".to_string()), stderr: None, stopped: true };
    assert_eq!(l.step(event, &mut state), LoopAction::Finish);
    assert_eq!(l.failures, 0);
    assert_eq!(state.status, TunnelStatus::Stopped);
    assert_eq!(state.last_error, "kept");
}

#[test]
fn the_error_is_the_last_line_of_the_standard_error() {
    assert_eq!(error_after(ended(Some("255"), Some("one\ntwo\n\n"))), "two");
    assert_eq!(error_after(ended(Some("255"), Some("  one\r\n two \r\n"))), " two");
    assert_eq!(error_after(ended(Some("255"), Some(" \n "))), "exit: 255");
    assert_eq!(error_after(ended(Some("255"), None)), "exit: 255");
    assert_eq!(error_after(ended(None, Some("one"))), "killed");
    assert_eq!(
        error_after(LoopEvent::SpawnFailed { error: "not found".to_string() }),
        "spawn: not found"
    );
}

#[test]
fn long_errors_are_cut() {
    let long = "ä".repeat(300);
    assert_eq!(error_after(ended(Some("1"), Some(&long))), "ä".repeat(200));
    let spawn = error_after(LoopEvent::SpawnFailed { error: long.clone() });
    assert_eq!(spawn, format!("spawn: {long}"));
}

#[test]
fn a_pause_ends_in_time_or_with_a_stop() {
    assert!(keep_sleeping(9, 10, false));
    assert!(!keep_sleeping(10, 10, false));
    assert!(!keep_sleeping(9, 10, true));
}
