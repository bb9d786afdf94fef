use scrap::error::{Error, ErrorKind};
use scrap::helper::CommandPart;
use scrap::session::AcceptOutcome;
use scrap::startup::{StartAction, StartEvent, StartPhase, Startup};

fn words(parts: Vec<CommandPart>) -> Vec<String> {
    parts
        .into_iter()
        .map(|part| match part {
            CommandPart::Executable => "app".to_string(),
            CommandPart::Text(text) => text,
        })
        .collect()
}

fn pixels() -> Startup {
    let (startup, action) = Startup::begin("d".to_string(), None, false);
    match action {
        StartAction::Launch(parts) => assert_eq!(words(parts), vec!["app", "--kms-helper", "stream", "d"]),
        _ => panic!(),
    }
    startup
}

fn exported() -> Startup {
    let (mut startup, action) = Startup::begin("d".to_string(), Some("/tmp/s".to_string()), true);
    assert!(matches!(action, StartAction::Bind));
    match startup.next(StartEvent::Bound(Ok(()))) {
        StartAction::Launch(parts) => assert_eq!(
            words(parts),
            vec![
                "pkexec",
                "--disable-internal-agent",
                "app",
                "--kms-helper",
                "dmabuf-stream-privileged",
                "d",
                "/tmp/s"
            ]
        ),
        _ => panic!(),
    }
    startup
}

fn failure(action: StartAction) -> Error {
    match action {
        StartAction::Fail(err) => err,
        other => panic!("{other:?}"),
    }
}

#[test]
fn a_helper_for_pixels_becomes_ready() {
    let mut startup = pixels();
    assert!(matches!(startup.next(StartEvent::Launched(Ok(()))), StartAction::TakeStdin));
    assert!(matches!(startup.next(StartEvent::Stdin(true)), StartAction::TakeStdout));
    assert!(matches!(startup.next(StartEvent::Stdout(true)), StartAction::Wait(120_000)));
    let waited = StartEvent::Waited { ready: Ok(1), pipe_error: false };
    assert!(matches!(startup.next(waited), StartAction::ReadLine));
    let line = StartEvent::Line(Ok(Some("ready\n".to_string())));
    assert!(matches!(startup.next(line), StartAction::Ready));
    assert_eq!(startup.phase, StartPhase::End);
}

#[test]
fn a_helper_for_exported_frames_connects_first() {
    let mut startup = exported();
    assert!(matches!(startup.next(StartEvent::Launched(Ok(()))), StartAction::Look(0)));
    let look = |outcome: AcceptOutcome, exited: bool, elapsed: u64| StartEvent::Looked { outcome, exited, elapsed };
    assert!(matches!(startup.next(look(AcceptOutcome::NotYet, false, 0)), StartAction::Look(20)));
    assert!(matches!(startup.next(look(AcceptOutcome::Connected, false, 9)), StartAction::TakeStdin));
    let err = failure(startup.next(StartEvent::Stdin(false)));
    assert_eq!((err.kind, err.message.as_str()), (ErrorKind::BrokenPipe, "kms dmabuf helper stdin unavailable"));
}

#[test]
fn a_connection_may_never_come() {
    let look = |exited: bool, elapsed: u64| StartEvent::Looked { outcome: AcceptOutcome::NotYet, exited, elapsed };
    let mut startup = exported();
    startup.next(StartEvent::Launched(Ok(())));
    let err = failure(startup.next(look(false, 120_000)));
    assert_eq!(err.message, "kms dmabuf helper socket connect timed out after 120000 ms");
    let mut startup = exported();
    startup.next(StartEvent::Launched(Ok(())));
    assert!(matches!(startup.next(look(true, 0)), StartAction::ReadStderr));
    let err = failure(startup.next(StartEvent::Stderr(" \n".to_string())));
    assert_eq!(err.message, "kms dmabuf helper exited before socket connect");
    let mut startup = exported();
    startup.next(StartEvent::Launched(Ok(())));
    let failed = StartEvent::Looked {
        outcome: AcceptOutcome::Failed(Error::other("x")),
        exited: false,
        elapsed: 0,
    };
    assert_eq!(failure(startup.next(failed)).message, "x");
}

#[test]
fn a_helper_may_exit_before_it_is_ready() {
    let mut startup = pixels();
    startup.next(StartEvent::Launched(Ok(())));
    startup.next(StartEvent::Stdin(true));
    startup.next(StartEvent::Stdout(true));
    startup.next(StartEvent::Waited { ready: Ok(1), pipe_error: false });
    assert!(matches!(startup.next(StartEvent::Line(Ok(None))), StartAction::ReadStderr));
    let err = failure(startup.next(StartEvent::Stderr("Error: Permission denied\n".to_string())));
    assert_eq!(err.kind, ErrorKind::PermissionDenied);
    assert_eq!(err.message, "Error: Permission denied");
}

#[test]
fn what_fails_on_the_way_is_passed_on() {
    let (mut startup, _) = Startup::begin("d".to_string(), Some("/tmp/s".to_string()), false);
    assert_eq!(failure(startup.next(StartEvent::Bound(Err(Error::other("b"))))).message, "b");
    assert_eq!(failure(pixels().next(StartEvent::Launched(Err(Error::other("l"))))).message, "l");
    let at_output = || {
        let mut startup = pixels();
        startup.next(StartEvent::Launched(Ok(())));
        startup.next(StartEvent::Stdin(true));
        startup
    };
    assert_eq!(failure(at_output().next(StartEvent::Stdout(false))).message, "kms helper stdout unavailable");
    let waiting = || {
        let mut startup = at_output();
        startup.next(StartEvent::Stdout(true));
        startup
    };
    let err = failure(waiting().next(StartEvent::Waited { ready: Ok(0), pipe_error: false }));
    assert_eq!(err.message, "kms helper ready timed out after 120000 ms");
    let err = failure(waiting().next(StartEvent::Waited { ready: Ok(1), pipe_error: true }));
    assert_eq!(err.message, "kms helper ready pipe error");
    let err = failure(waiting().next(StartEvent::Waited { ready: Err(Error::other("p")), pipe_error: false }));
    assert_eq!(err.message, "p");
    let reading = || {
        let mut startup = waiting();
        startup.next(StartEvent::Waited { ready: Ok(1), pipe_error: false });
        startup
    };
    assert_eq!(failure(reading().next(StartEvent::Line(Err(Error::other("r"))))).message, "r");
    let err = failure(reading().next(StartEvent::Line(Ok(Some("hi".to_string())))));
    assert_eq!(err.message, "unexpected kms helper ready message: hi");
}

#[test]
fn a_quit_is_owed_once_both_pipes_are_taken() {
    let mut startup = pixels();
    startup.next(StartEvent::Launched(Ok(())));
    startup.next(StartEvent::Stdin(true));
    assert!(!startup.owes_quit());
    let mut without = pixels();
    without.next(StartEvent::Launched(Ok(())));
    without.next(StartEvent::Stdin(true));
    without.next(StartEvent::Stdout(false));
    assert!(!without.owes_quit());
    startup.next(StartEvent::Stdout(true));
    assert!(startup.owes_quit());
    startup.next(StartEvent::Waited { ready: Ok(0), pipe_error: false });
    assert_eq!(startup.phase, StartPhase::End);
    assert!(startup.owes_quit());
    let mut exited = exported();
    exited.next(StartEvent::Launched(Ok(())));
    exited.next(StartEvent::Looked { outcome: AcceptOutcome::NotYet, exited: true, elapsed: 0 });
    exited.next(StartEvent::Stderr(String::new()));
    assert!(!exited.owes_quit());
}
