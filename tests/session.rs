use port_task_kill::{
    Action, CommandReport, EXIT_CODE, Event, KillFailure, Notice, Phase, Protocol, ResolveError,
    Session, SocketRecord,
};

fn tcp(local_port: u16, pids: Vec<u32>) -> SocketRecord {
    SocketRecord { protocol: Protocol::Tcp, local_port, pids }
}

fn udp(local_port: u16, pids: Vec<u32>) -> SocketRecord {
    SocketRecord { protocol: Protocol::Udp, local_port, pids }
}

fn finished(success: bool, diagnostic: &str) -> Event {
    Event::KillDone(CommandReport::Finished { success, diagnostic: diagnostic.to_string() })
}

#[test]
fn no_valid_ports_drains_without_resolving() {
    let mut s = Session::new("linux");
    let d = s.step(Event::LineRead("abc 70000".to_string()));
    assert_eq!(d.notices.len(), 1);
    assert!(matches!(d.notices[0], Notice::NoValidPorts));
    assert!(matches!(d.action, Action::Drain));
    assert_eq!(s.phase, Phase::Draining);
    let d = s.step(Event::Drained);
    assert!(matches!(d.action, Action::Exit(EXIT_CODE)));
    assert_eq!(EXIT_CODE, 0);
    assert_eq!(s.phase, Phase::Exited);
}

#[test]
fn empty_line_drains_without_resolving() {
    let mut s = Session::new("windows");
    let d = s.step(Event::LineRead(String::new()));
    assert!(matches!(d.notices[0], Notice::NoValidPorts));
    assert!(matches!(d.action, Action::Drain));
}

#[test]
fn read_failure_drains() {
    let mut s = Session::new("linux");
    let d = s.step(Event::ReadFailed("closed".to_string()));
    assert!(matches!(&d.notices[0], Notice::ReadFailed(e) if e == "closed"));
    assert!(matches!(d.action, Action::Drain));
    assert_eq!(s.phase, Phase::Draining);
}

#[test]
fn valid_ports_are_resolved() {
    let mut s = Session::new("linux");
    let d = s.step(Event::LineRead("abc 70000 8080".to_string()));
    assert!(d.notices.is_empty());
    assert!(matches!(d.action, Action::ReadSocketTable));
    assert_eq!(s.ports, vec![8080]);
    assert_eq!(s.phase, Phase::Resolving);
}

#[test]
fn enumeration_failure_drains() {
    let mut s = Session::new("linux");
    s.step(Event::LineRead("80".to_string()));
    let d = s.step(Event::TableRead(Err(ResolveError::Enumeration("denied".to_string()))));
    assert!(matches!(d.notices[0], Notice::EnumerationFailed(_)));
    assert!(matches!(d.action, Action::Drain));
}

#[test]
fn nothing_found_drains() {
    let mut s = Session::new("linux");
    s.step(Event::LineRead("80".to_string()));
    let d = s.step(Event::TableRead(Ok(vec![tcp(81, vec![9]), udp(80, vec![10])])));
    assert!(matches!(d.notices[0], Notice::NoProcessFound));
    assert!(matches!(d.action, Action::Drain));
}

#[test]
fn partial_failure_still_exits_with_success() {
    let mut s = Session::new("linux");
    s.step(Event::LineRead("8080 9090".to_string()));
    let d = s.step(Event::TableRead(Ok(vec![
        tcp(8080, vec![100]),
        udp(9090, vec![300]),
        tcp(9090, vec![200, 100]),
    ])));
    assert!(matches!(&d.notices[0], Notice::Targets(t) if *t == vec![100, 200]));
    match &d.action {
        Action::Kill { pid, command } => {
            assert_eq!(*pid, 100);
            assert_eq!(command.program, "kill");
            assert_eq!(command.args, vec!["-9".to_string(), "100".to_string()]);
        }
        other => panic!("unexpected action {:?}", other),
    }
    let d = s.step(finished(true, ""));
    assert!(matches!(d.notices[0], Notice::Killed(100)));
    match &d.action {
        Action::Kill { pid, command } => {
            assert_eq!(*pid, 200);
            assert_eq!(command.args, vec!["-9".to_string(), "200".to_string()]);
        }
        other => panic!("unexpected action {:?}", other),
    }
    let d = s.step(finished(false, "No such process"));
    assert!(matches!(
        &d.notices[0],
        Notice::KillFailed(200, KillFailure::Refused(why)) if why == "No such process"
    ));
    assert!(matches!(d.action, Action::Drain));
    let d = s.step(Event::Drained);
    assert!(matches!(d.action, Action::Exit(0)));
    assert_eq!(s.phase, Phase::Exited);
}

#[test]
fn a_failure_does_not_stop_the_rest() {
    let mut s = Session::new("windows");
    s.step(Event::LineRead("1 2 3".to_string()));
    s.step(Event::TableRead(Ok(vec![tcp(1, vec![5]), tcp(2, vec![6, 5]), tcp(3, vec![7])])));
    let d = s.step(Event::KillDone(CommandReport::NotStarted("missing".to_string())));
    assert!(matches!(d.notices[0], Notice::KillFailed(5, KillFailure::NotStarted(_))));
    match &d.action {
        Action::Kill { pid, command } => {
            assert_eq!(*pid, 6);
            assert_eq!(command.program, "taskkill");
            assert_eq!(command.args, vec!["/F".to_string(), "/PID".to_string(), "6".to_string()]);
        }
        other => panic!("unexpected action {:?}", other),
    }
    let d = s.step(finished(false, "denied"));
    assert!(matches!(d.notices[0], Notice::KillFailed(6, KillFailure::Refused(_))));
    assert!(matches!(d.action, Action::Kill { pid: 7, .. }));
    let d = s.step(finished(true, ""));
    assert!(matches!(d.notices[0], Notice::Killed(7)));
    assert!(matches!(d.action, Action::Drain));
}

#[test]
fn unsupported_host_reports_before_any_termination() {
    let mut s = Session::new("macos");
    s.step(Event::LineRead("8080".to_string()));
    let d = s.step(Event::TableRead(Ok(vec![tcp(8080, vec![100])])));
    assert_eq!(d.notices.len(), 2);
    assert!(matches!(d.notices[0], Notice::Targets(_)));
    assert!(matches!(d.notices[1], Notice::UnsupportedPlatform));
    assert!(matches!(d.action, Action::Drain));
    assert_eq!(s.phase, Phase::Draining);
}

#[test]
fn out_of_place_event_is_ignored() {
    let mut s = Session::new("linux");
    let d = s.step(Event::Drained);
    assert!(d.notices.is_empty());
    assert!(matches!(d.action, Action::Ignore));
    assert_eq!(s.phase, Phase::AwaitingInput);
}
