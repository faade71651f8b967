use focuslock::enforce::EnforcementAction;
use focuslock::monitor::{
    any_session_running, stop_reply, LoopCommand, LoopEvent, LoopPhase, MonitorLoop,
    MonitorState, StartStatus, POLL_INTERVAL_SECS,
};
use focuslock::{BlockRule, ProcessDescriptor, Session};

fn session(status: &str) -> Session {
    Session {
        id: "s".to_string(),
        start_utc: 100,
        end_utc: 200,
        status: status.to_string(),
        duration_secs: 100,
        remaining_secs: None,
    }
}

fn rule(app_id: &str, match_kind: &str, mode: &str) -> BlockRule {
    BlockRule {
        id: "r".to_string(),
        app_id: app_id.to_string(),
        match_kind: match_kind.to_string(),
        mode: mode.to_string(),
    }
}

fn process(name: &str, path: Option<&str>, pid: u32) -> ProcessDescriptor {
    ProcessDescriptor { name: name.to_string(), path: path.map(|p| p.to_string()), pid }
}

#[test]
fn start_twice_starts_once() {
    let mut state = MonitorState::new();
    assert!(!state.is_running());
    assert_eq!(state.start(), StartStatus::Started);
    let run = state.current_run();
    assert_eq!(state.start(), StartStatus::AlreadyRunning);
    assert_eq!(state.current_run(), run);
    assert!(state.is_running());
    assert!(state.owns(run));
    assert!(!state.owns(run.wrapping_sub(1)));
}

#[test]
fn stop_when_stopped_is_a_no_op() {
    let mut state = MonitorState::new();
    state.stop();
    assert!(!state.is_running());
    assert_eq!(state.current_run(), 0);
    state.start();
    state.stop();
    let run = state.current_run();
    state.stop();
    assert!(!state.is_running());
    assert_eq!(state.current_run(), run);
    assert_eq!(stop_reply(), "Session monitor stopped");
}

#[test]
fn start_replies() {
    assert_eq!(StartStatus::Started.reply(), "Session monitor started");
    assert_eq!(StartStatus::AlreadyRunning.reply(), "Monitor already running");
}

#[test]
fn stale_loop_does_not_stop_a_newer_run() {
    let mut state = MonitorState::new();
    state.start();
    let old_run = state.current_run();
    state.stop();
    state.start();
    let new_run = state.current_run();
    assert_ne!(old_run, new_run);
    assert!(!state.owns(old_run));
    state.finish(old_run);
    assert!(state.is_running());
    state.finish(new_run);
    assert!(!state.is_running());
}

#[test]
fn running_session_detection() {
    assert!(!any_session_running(&vec![]));
    assert!(!any_session_running(&vec![session("completed"), session("pending")]));
    assert!(any_session_running(&vec![session("completed"), session("running")]));
    assert!(!any_session_running(&vec![session("Running")]));
}

#[test]
fn completed_sessions_stop_before_any_process_read() {
    let mut lp = MonitorLoop::new();
    assert_eq!(lp.phase(), LoopPhase::AwaitFlag);
    assert!(matches!(lp.advance(LoopEvent::FlagRead(true)), LoopCommand::ReadSessions));
    let cmd = lp.advance(LoopEvent::SessionsRead(Ok(vec![session("completed")])));
    assert!(matches!(cmd, LoopCommand::Finish));
    assert_eq!(lp.phase(), LoopPhase::Halted);
    assert!(matches!(lp.advance(LoopEvent::SnapshotTaken(vec![])), LoopCommand::Finish));
}

#[test]
fn failed_session_read_stops_and_restart_is_accepted() {
    let mut state = MonitorState::new();
    assert_eq!(state.start(), StartStatus::Started);
    let run = state.current_run();
    let mut lp = MonitorLoop::new();
    assert!(matches!(lp.advance(LoopEvent::FlagRead(state.owns(run))), LoopCommand::ReadSessions));
    let cmd = lp.advance(LoopEvent::SessionsRead(Err("database is locked".to_string())));
    assert!(matches!(cmd, LoopCommand::Finish));
    state.finish(run);
    assert!(!state.is_running());
    assert_eq!(state.start(), StartStatus::Started);
    assert_ne!(state.current_run(), run);
    let mut fresh = MonitorLoop::new();
    assert!(matches!(
        fresh.advance(LoopEvent::FlagRead(state.owns(state.current_run()))),
        LoopCommand::ReadSessions
    ));
}

#[test]
fn full_cycle_enforces_then_sleeps() {
    assert_eq!(POLL_INTERVAL_SECS, 2);
    let mut lp = MonitorLoop::new();
    lp.advance(LoopEvent::FlagRead(true));
    assert!(matches!(
        lp.advance(LoopEvent::SessionsRead(Ok(vec![session("running")]))),
        LoopCommand::ReadRules
    ));
    assert!(matches!(
        lp.advance(LoopEvent::RulesRead(Ok(vec![rule("game.exe", "exe", "hard")]))),
        LoopCommand::TakeSnapshot
    ));
    assert_eq!(lp.rules().len(), 1);
    let cmd = lp.advance(LoopEvent::SnapshotTaken(vec![
        process("game.exe", None, 11),
        process("editor.exe", None, 12),
    ]));
    match cmd {
        LoopCommand::Enforce(plan) => {
            assert_eq!(plan.len(), 1);
            assert_eq!(plan[0].pid, 11);
            assert_eq!(plan[0].action, EnforcementAction::Terminate);
        }
        other => panic!("unexpected command {:?}", other),
    }
    assert_eq!(lp.phase(), LoopPhase::AwaitFlag);
    // Second cycle: the process is still there and is terminated again.
    lp.advance(LoopEvent::FlagRead(true));
    lp.advance(LoopEvent::SessionsRead(Ok(vec![session("running")])));
    lp.advance(LoopEvent::RulesRead(Ok(vec![rule("game.exe", "exe", "hard")])));
    match lp.advance(LoopEvent::SnapshotTaken(vec![process("game.exe", None, 11)])) {
        LoopCommand::Enforce(plan) => assert_eq!(plan.len(), 1),
        other => panic!("unexpected command {:?}", other),
    }
}

#[test]
fn failed_rule_read_pauses_without_stopping() {
    let mut lp = MonitorLoop::new();
    lp.advance(LoopEvent::FlagRead(true));
    lp.advance(LoopEvent::SessionsRead(Ok(vec![session("running")])));
    let cmd = lp.advance(LoopEvent::RulesRead(Err("no such table".to_string())));
    assert!(matches!(cmd, LoopCommand::Pause));
    assert_eq!(lp.phase(), LoopPhase::AwaitFlag);
}

#[test]
fn stop_request_ends_loop_at_next_check() {
    let mut lp = MonitorLoop::new();
    assert!(matches!(lp.advance(LoopEvent::FlagRead(false)), LoopCommand::Finish));
    assert_eq!(lp.phase(), LoopPhase::Halted);
}

#[test]
fn unexpected_event_repeats_pending_command() {
    let mut lp = MonitorLoop::new();
    assert!(matches!(lp.advance(LoopEvent::SnapshotTaken(vec![])), LoopCommand::CheckFlag));
    lp.advance(LoopEvent::FlagRead(true));
    assert!(matches!(lp.advance(LoopEvent::FlagRead(true)), LoopCommand::ReadSessions));
    assert_eq!(lp.phase(), LoopPhase::AwaitSessions);
}

#[test]
fn empty_snapshot_gives_empty_plan() {
    let mut lp = MonitorLoop::new();
    lp.advance(LoopEvent::FlagRead(true));
    lp.advance(LoopEvent::SessionsRead(Ok(vec![session("running")])));
    lp.advance(LoopEvent::RulesRead(Ok(vec![rule("game.exe", "exe", "hard")])));
    match lp.advance(LoopEvent::SnapshotTaken(vec![])) {
        LoopCommand::Enforce(plan) => assert!(plan.is_empty()),
        other => panic!("unexpected command {:?}", other),
    }
}
