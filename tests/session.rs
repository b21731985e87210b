use winrm_client::{exit_code, Action, Command, Event, Failure, Phase, Session};

fn run_cmd() -> Command {
    Command::Run { text: "whoami".to_string() }
}

#[test]
fn successful_command_with_empty_output() {
    let (s, a) = Session::start(run_cmd());
    assert!(matches!(a, Action::Open));
    let (s, a) = s.step(Event::Opened);
    assert!(matches!(a, Action::Run(ref t) if t == "whoami"));
    let (s, a) = s.step(Event::CommandStarted("c1".to_string()));
    assert!(matches!(a, Action::FetchOutput(ref id) if id == "c1"));
    let (s, a) = s.step(Event::Output { stdout: String::new(), stderr: String::new(), exit_code: 0 });
    assert!(matches!(a, Action::Print { ref stdout, ref stderr } if stdout.is_empty() && stderr.is_empty()));
    let (s, a) = s.step(Event::Printed);
    assert!(matches!(a, Action::Close));
    let (s, a) = s.step(Event::Closed);
    assert!(matches!(s.phase, Phase::Done));
    match a {
        Action::Finish(outcome) => assert_eq!(exit_code(&outcome), 0),
        _ => panic!("expected finish"),
    }
}

#[test]
fn failing_command_still_prints_and_closes() {
    let (s, _) = Session::start(run_cmd());
    let (s, _) = s.step(Event::Opened);
    let (s, _) = s.step(Event::CommandStarted("c1".to_string()));
    let (s, a) = s.step(Event::Output { stdout: "out".to_string(), stderr: "err".to_string(), exit_code: 5 });
    assert!(matches!(a, Action::Print { ref stdout, ref stderr } if stdout == "out" && stderr == "err"));
    let (s, a) = s.step(Event::Printed);
    assert!(matches!(a, Action::Close));
    let (_, a) = s.step(Event::Closed);
    match a {
        Action::Finish(outcome) => {
            assert!(matches!(outcome, Err(Failure::CommandFailed(5))));
            assert_eq!(exit_code(&outcome), 3);
        }
        _ => panic!("expected finish"),
    }
}

#[test]
fn dispatch_failure_closes_shell_once() {
    let cmd = Command::Upload { local: "a.txt".to_string(), remote: "C:\\a.txt".to_string() };
    let (s, _) = Session::start(cmd);
    let (s, a) = s.step(Event::Opened);
    assert!(matches!(a, Action::Upload { ref local, ref remote } if local == "a.txt" && remote == "C:\\a.txt"));
    let (s, a) = s.step(Event::Failed(Failure::FileTransferError("no file".to_string())));
    assert!(matches!(a, Action::Close));
    let (s, a) = s.step(Event::Closed);
    match a {
        Action::Finish(outcome) => assert_eq!(exit_code(&outcome), 4),
        _ => panic!("expected finish"),
    }
    let (_, a) = s.step(Event::Closed);
    assert!(matches!(a, Action::Wait));
}

#[test]
fn close_failure_replaces_dispatch_failure() {
    let cmd = Command::Download { remote: "C:\\f".to_string(), local: "f".to_string() };
    let (s, _) = Session::start(cmd);
    let (s, a) = s.step(Event::Opened);
    assert!(matches!(a, Action::Download { ref remote, ref local } if remote == "C:\\f" && local == "f"));
    let (s, _) = s.step(Event::Failed(Failure::FileTransferError("gone".to_string())));
    let (_, a) = s.step(Event::Failed(Failure::ConnectionError("reset".to_string())));
    match a {
        Action::Finish(outcome) => {
            assert!(matches!(outcome, Err(Failure::ConnectionError(_))));
            assert_eq!(exit_code(&outcome), 2);
        }
        _ => panic!("expected finish"),
    }
}

#[test]
fn failed_open_never_closes() {
    let (s, _) = Session::start(run_cmd());
    let (s, a) = s.step(Event::Failed(Failure::AuthenticationFailed("bad".to_string())));
    assert!(matches!(s.phase, Phase::Done));
    match a {
        Action::Finish(outcome) => assert_eq!(exit_code(&outcome), 1),
        _ => panic!("expected finish"),
    }
}

#[test]
fn transfer_success_closes_then_finishes_ok() {
    let cmd = Command::Upload { local: "a".to_string(), remote: "b".to_string() };
    let (s, _) = Session::start(cmd);
    let (s, _) = s.step(Event::Opened);
    let (s, a) = s.step(Event::Transferred);
    assert!(matches!(a, Action::Close));
    let (_, a) = s.step(Event::Closed);
    assert!(matches!(a, Action::Finish(Ok(()))));
}

#[test]
fn unexpected_event_is_ignored() {
    let (s, _) = Session::start(run_cmd());
    let (s, a) = s.step(Event::Printed);
    assert!(matches!(a, Action::Wait));
    assert!(matches!(s.phase, Phase::Opening));
}
