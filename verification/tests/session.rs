use scrap::error::{Error, ErrorKind};
use scrap::helper::{stream_command, StreamStep};
use scrap::session::{
    accept_step, check_ready, dmabuf_socket_name, exit_step, exited_before_frame, helper_label,
    pipe_unavailable, poll_outcome, poll_timeout, quit_step, receive_failure, session_unavailable,
    AcceptOutcome, AcceptStep, ExitStep, Greeting, EXIT_TIMEOUT_MS, FRAME_LINE, FRAME_TIMEOUT_MS,
    QUIT_LINE, READY_LINE, READY_TIMEOUT_MS,
};

#[test]
fn both_sides_understand_the_lines() {
    assert_eq!(stream_command(Some(FRAME_LINE), false).unwrap(), StreamStep::Capture);
    assert_eq!(stream_command(Some(QUIT_LINE), true).unwrap(), StreamStep::Stop);
    assert!(matches!(check_ready(Some(READY_LINE), false), Greeting::Ready));
}

#[test]
fn timeouts_fit_into_poll() {
    assert_eq!(poll_timeout(READY_TIMEOUT_MS), 120_000);
    assert_eq!(poll_timeout(FRAME_TIMEOUT_MS), 5_000);
    assert_eq!(poll_timeout(u64::MAX), i32::MAX);
}

#[test]
fn waiting_ends_in_time_or_in_an_error() {
    assert!(poll_outcome(1, false, "kms helper ready", 5).is_ok());
    let err = poll_outcome(0, false, "kms helper ready", 120_000).unwrap_err();
    assert_eq!(err.kind, ErrorKind::TimedOut);
    assert_eq!(err.message, "kms helper ready timed out after 120000 ms");
    let err = poll_outcome(1, true, "kms helper frame header", 5).unwrap_err();
    assert_eq!(err.kind, ErrorKind::BrokenPipe);
    assert_eq!(err.message, "kms helper frame header pipe error");
}

#[test]
fn greetings_are_checked() {
    match check_ready(Some(" hello \n"), true) {
        Greeting::Unexpected(err) => {
            assert_eq!(err.kind, ErrorKind::InvalidData);
            assert_eq!(err.message, "unexpected kms dmabuf helper ready message: hello");
        }
        _ => panic!(),
    }
    match check_ready(None, false) {
        Greeting::Exited(text) => assert_eq!(text, "kms helper exited before ready"),
        _ => panic!(),
    }
    assert_eq!(exited_before_frame(true), "kms dmabuf helper exited before frame");
    assert_eq!(exited_before_frame(false), "kms helper exited before frame header");
    assert_eq!(helper_label(true), "kms dmabuf helper");
}

#[test]
fn missing_pipes_are_broken() {
    let err = pipe_unavailable(false, true);
    assert_eq!((err.kind, err.message.as_str()), (ErrorKind::BrokenPipe, "kms helper stdin unavailable"));
    assert_eq!(pipe_unavailable(true, false).message, "kms dmabuf helper stdout unavailable");
}

#[test]
fn a_connection_is_awaited() {
    assert!(matches!(accept_step(AcceptOutcome::Connected, true, 9, 5), AcceptStep::Take));
    assert!(matches!(accept_step(AcceptOutcome::NotYet, false, 4, 5), AcceptStep::LookAgain(20)));
    match accept_step(AcceptOutcome::NotYet, true, 9, 5) {
        AcceptStep::Exited(text) => assert_eq!(text, "kms dmabuf helper exited before socket connect"),
        _ => panic!(),
    }
    match accept_step(AcceptOutcome::NotYet, false, 5, 5) {
        AcceptStep::Fail(err) => {
            assert_eq!(err.kind, ErrorKind::TimedOut);
            assert_eq!(err.message, "kms dmabuf helper socket connect timed out after 5 ms");
        }
        _ => panic!(),
    }
    match accept_step(AcceptOutcome::Failed(Error::other("x")), false, 0, 5) {
        AcceptStep::Fail(err) => assert_eq!(err.message, "x"),
        _ => panic!(),
    }
}

#[test]
fn an_exit_is_awaited_for_a_while() {
    assert_eq!(exit_step(0, false, EXIT_TIMEOUT_MS), ExitStep::LookAgain(10));
    assert_eq!(exit_step(199, true, EXIT_TIMEOUT_MS), ExitStep::Exited);
    assert_eq!(exit_step(200, true, EXIT_TIMEOUT_MS), ExitStep::Exited);
    assert_eq!(exit_step(200, false, EXIT_TIMEOUT_MS), ExitStep::StillRunning);
}

#[test]
fn a_helper_that_does_not_quit_is_killed() {
    for look in 0..10 {
        assert_eq!(quit_step(look, false), ExitStep::LookAgain(20));
        assert_eq!(quit_step(look, true), ExitStep::Exited);
    }
    assert_eq!(quit_step(10, false), ExitStep::StillRunning);
}

#[test]
fn socket_names_differ() {
    assert_eq!(dmabuf_socket_name(12, 34), "rustdesk-kms-dmabuf-12-34.sock");
    assert_ne!(dmabuf_socket_name(1, 23), dmabuf_socket_name(12, 3));
}

#[test]
fn a_missing_session_is_a_broken_pipe() {
    for (dmabuf, privileged, message) in [
        (false, false, "kms helper session unavailable"),
        (true, false, "kms dmabuf helper session unavailable"),
        (false, true, "privileged kms helper session unavailable"),
        (true, true, "privileged kms dmabuf helper session unavailable"),
    ] {
        let err = session_unavailable(dmabuf, privileged);
        assert_eq!((err.kind, err.message.as_str()), (ErrorKind::BrokenPipe, message));
    }
}

#[test]
fn an_exited_helper_is_to_blame_for_a_failed_receive() {
    let lost = || Error::new(ErrorKind::UnexpectedEof, "kms dmabuf socket closed");
    let err = receive_failure(lost(), None);
    assert_eq!((err.kind, err.message.as_str()), (ErrorKind::UnexpectedEof, "kms dmabuf socket closed"));
    let err = receive_failure(lost(), Some(" \n"));
    assert_eq!(err.message, "kms dmabuf helper exited before frame");
    let err = receive_failure(lost(), Some("Permission denied\n"));
    assert_eq!((err.kind, err.message.as_str()), (ErrorKind::PermissionDenied, "Permission denied"));
}
