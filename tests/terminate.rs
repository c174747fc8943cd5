use port_task_kill::{
    CommandReport, KillFailure, KillStrategy, TerminationOutcome, kill_command, pid_text,
    select_strategy, termination_outcome,
};

#[test]
fn strategy_per_host() {
    assert_eq!(select_strategy("windows"), Some(KillStrategy::Windows));
    assert_eq!(select_strategy("linux"), Some(KillStrategy::Linux));
    assert_eq!(select_strategy("macos"), None);
    assert_eq!(select_strategy(""), None);
    assert_eq!(select_strategy("Linux"), None);
}

#[test]
fn windows_command_is_forced_taskkill() {
    let c = kill_command(KillStrategy::Windows, 4321);
    assert_eq!(c.program, "taskkill");
    assert_eq!(c.args, vec!["/F".to_string(), "/PID".to_string(), "4321".to_string()]);
}

#[test]
fn linux_command_is_signal_kill() {
    let c = kill_command(KillStrategy::Linux, 100);
    assert_eq!(c.program, "kill");
    assert_eq!(c.args, vec!["-9".to_string(), "100".to_string()]);
}

#[test]
fn pid_text_is_decimal() {
    assert_eq!(pid_text(0), "0");
    assert_eq!(pid_text(7), "7");
    assert_eq!(pid_text(1090), "1090");
    assert_eq!(pid_text(u32::MAX), "4294967295");
}

#[test]
fn outcome_of_reports() {
    assert!(matches!(
        termination_outcome(CommandReport::Finished { success: true, diagnostic: String::new() }),
        TerminationOutcome::Requested
    ));
    match termination_outcome(CommandReport::Finished {
        success: false,
        diagnostic: "no such process".to_string(),
    }) {
        TerminationOutcome::Failed(KillFailure::Refused(d)) => assert_eq!(d, "no such process"),
        other => panic!("unexpected outcome {:?}", other),
    }
    match termination_outcome(CommandReport::NotStarted("not found".to_string())) {
        TerminationOutcome::Failed(KillFailure::NotStarted(d)) => assert_eq!(d, "not found"),
        other => panic!("unexpected outcome {:?}", other),
    }
}
