use openrouter_local::process_manager::{
    follow_next_offset, follow_read_from, last_lines, log_path, logs_dir, missing_log_message, parse_pid,
    parse_u32, pid_file_text, pid_path, proc_entry_path, start_decision, started_message,
    stop_report_message, stop_step, StartDecision, StopAction, StopEvent, StopReport, StopState,
};

#[test]
fn file_locations() {
    assert_eq!(logs_dir(), "logs");
    assert_eq!(pid_path(), "logs/server.pid");
    assert_eq!(log_path(), "logs/server.log");
    assert_eq!(proc_entry_path(4242), "/proc/4242");
}

#[test]
fn pid_file_round_trips() {
    for pid in [0u32, 1, 9, 10, 4242, u32::MAX] {
        assert_eq!(pid_file_text(pid), format!("{pid}\n"));
        assert_eq!(parse_pid(&pid_file_text(pid)), Some(pid));
    }
}

#[test]
fn parses_like_str_parse() {
    for s in ["", "+", "+7", "-1", "12a", "007", "4294967295", "4294967296", "99999999999999999999", "٣"] {
        assert_eq!(parse_u32(s), s.parse::<u32>().ok(), "{s:?}");
    }
    assert_eq!(parse_pid("  123 \n"), Some(123));
    assert_eq!(parse_pid("garbage"), None);
}

#[test]
fn start_reports_a_live_server() {
    match start_decision(Some(77), true) {
        StartDecision::AlreadyRunning(m) => assert_eq!(m, "already running (pid=77)"),
        StartDecision::Spawn => panic!("should not spawn"),
    }
    assert!(matches!(start_decision(Some(77), false), StartDecision::Spawn));
    assert!(matches!(start_decision(None, true), StartDecision::Spawn));
    assert_eq!(started_message(5), "started (pid=5)");
}

#[test]
fn stop_without_pid_file() {
    let (s, a) = stop_step(StopState::Checking, StopEvent::PidFile { exists: false, pid: None, alive: false });
    assert_eq!(s, StopState::Finished);
    assert_eq!(a, StopAction::Finish { remove_pid_file: false, report: StopReport::NotRunning });
    let (_, a) = stop_step(StopState::Checking, StopEvent::PidFile { exists: true, pid: None, alive: false });
    assert_eq!(a, StopAction::Finish { remove_pid_file: true, report: StopReport::NotRunning });
    let (_, a) = stop_step(StopState::Checking, StopEvent::PidFile { exists: true, pid: Some(3), alive: false });
    assert_eq!(a, StopAction::Finish { remove_pid_file: true, report: StopReport::NotRunning });
}

#[test]
fn stop_escalates_to_kill() {
    let (s, a) = stop_step(StopState::Checking, StopEvent::PidFile { exists: true, pid: Some(9), alive: true });
    assert_eq!((s, a), (StopState::Terminating(9), StopAction::SendTerm(9)));
    let (s, a) = stop_step(s, StopEvent::Poll { in_time: true, alive: true });
    assert_eq!((s, a), (StopState::Terminating(9), StopAction::Sleep(100)));
    let (s, a) = stop_step(s, StopEvent::Poll { in_time: false, alive: true });
    assert_eq!((s, a), (StopState::Killing(9), StopAction::SendKill(9)));
    let (s, a) = stop_step(s, StopEvent::Poll { in_time: true, alive: true });
    assert_eq!((s, a), (StopState::Killing(9), StopAction::Sleep(50)));
    let (s, a) = stop_step(s, StopEvent::Poll { in_time: false, alive: true });
    assert_eq!((s, a), (StopState::Confirming(9), StopAction::Recheck));
    let (s, a) = stop_step(s, StopEvent::Poll { in_time: false, alive: true });
    assert_eq!(s, StopState::Finished);
    assert_eq!(a, StopAction::Finish { remove_pid_file: true, report: StopReport::StillAlive(9) });
    assert_eq!(stop_report_message(StopReport::StillAlive(9)), "failed to stop process pid=9");
}

#[test]
fn stop_after_terminate() {
    let (s, a) = stop_step(StopState::Terminating(4), StopEvent::Poll { in_time: true, alive: false });
    assert_eq!((s, a), (StopState::Finished, StopAction::Finish { remove_pid_file: true, report: StopReport::Stopped }));
    let (_, a) = stop_step(StopState::Confirming(4), StopEvent::Poll { in_time: false, alive: false });
    assert_eq!(a, StopAction::Finish { remove_pid_file: true, report: StopReport::Stopped });
    assert_eq!(stop_report_message(StopReport::Stopped), "stopped");
    assert_eq!(stop_report_message(StopReport::NotRunning), "not running");
    let (s, a) = stop_step(StopState::Finished, StopEvent::Poll { in_time: true, alive: true });
    assert_eq!((s, a), (StopState::Finished, StopAction::Ignore));
}

#[test]
fn tails_the_last_lines() {
    let all: Vec<String> = (1..=5).map(|i| format!("line {i}")).collect();
    assert_eq!(last_lines(&all, 2), vec!["line 4", "line 5"]);
    assert_eq!(last_lines(&all, 200).len(), 5);
    assert!(last_lines(&all, 0).is_empty());
    assert_eq!(missing_log_message("logs/server.log"), "log file not found: logs/server.log");
}

#[test]
fn follow_restarts_after_truncation() {
    assert_eq!(follow_read_from(100, 150), 100);
    assert_eq!(follow_read_from(100, 40), 0);
    assert_eq!(follow_next_offset(100, 150, true), 150);
    assert_eq!(follow_next_offset(100, 150, false), 100);
}
