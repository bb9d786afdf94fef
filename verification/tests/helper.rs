use scrap::error::{Error, ErrorKind};
use scrap::helper::{
    check_access, display_not_found, find_display_step, frame_outcome, helper_command, launch_failure,
    listing_failure, parse_command, probe, probed_display, stream_command, CommandPart, FrameOutcome, HelperRequest,
    SearchStep, StreamStep,
};
use scrap::readback::{ActiveFramebuffer, FrameCapture, FrameOutput, ProbeDisplay};
use scrap::sysfs::ConnectedMode;

fn args(words: &[&str]) -> Vec<String> {
    words.iter().map(|w| w.to_string()).collect()
}

fn error_of(words: &[&str]) -> String {
    let err = parse_command(&args(words)).unwrap_err();
    assert_eq!(err.kind, ErrorKind::Other);
    err.message
}

fn spelled(parts: Vec<CommandPart>) -> Vec<String> {
    parts
        .into_iter()
        .map(|part| match part {
            CommandPart::Executable => "/usr/bin/app".to_string(),
            CommandPart::Text(text) => text,
        })
        .collect()
}

#[test]
fn every_request_is_understood() {
    let name = || "card0-DP-1".to_string();
    let requests = vec![
        HelperRequest::Probe,
        HelperRequest::Frame { display_name: name(), privileged: false },
        HelperRequest::Frame { display_name: name(), privileged: true },
        HelperRequest::Stream { display_name: name(), privileged: false },
        HelperRequest::Stream { display_name: name(), privileged: true },
        HelperRequest::DmabufStream { display_name: name(), socket_path: "/tmp/s".to_string(), privileged: false },
        HelperRequest::DmabufStream { display_name: name(), socket_path: "/tmp/s".to_string(), privileged: true },
    ];
    for request in requests {
        let line = spelled(helper_command(&request));
        let flag = line.iter().position(|w| w == "--kms-helper").unwrap();
        let parsed = parse_command(&line[flag + 1..].to_vec()).unwrap();
        assert_eq!(format!("{parsed:?}"), format!("{request:?}"));
    }
}

#[test]
fn privileged_helpers_are_started_through_pkexec() {
    let request = HelperRequest::DmabufStream {
        display_name: "card0-DP-1".to_string(),
        socket_path: "/tmp/s".to_string(),
        privileged: true,
    };
    assert_eq!(
        spelled(helper_command(&request)),
        args(&[
            "pkexec",
            "--disable-internal-agent",
            "/usr/bin/app",
            "--kms-helper",
            "dmabuf-stream-privileged",
            "card0-DP-1",
            "/tmp/s"
        ])
    );
    let request = HelperRequest::Stream { display_name: "d".to_string(), privileged: false };
    assert_eq!(spelled(helper_command(&request)), args(&["/usr/bin/app", "--kms-helper", "stream", "d"]));
    assert_eq!(spelled(helper_command(&HelperRequest::Probe)), args(&["/usr/bin/app", "--kms-helper", "probe"]));
}

#[test]
fn bad_commands_are_named() {
    assert_eq!(error_of(&[]), "missing kms helper command");
    assert_eq!(error_of(&["paint", "x"]), "unsupported kms helper command: paint");
    assert_eq!(error_of(&["frame"]), "missing kms helper display name");
    assert_eq!(error_of(&["dmabuf-stream"]), "missing kms helper display name");
    assert_eq!(error_of(&["dmabuf-stream-privileged", "d"]), "missing kms helper dmabuf socket");
    assert!(parse_command(&args(&["probe", "ignored"])).is_ok());
}

#[test]
fn stream_lines_are_commands() {
    assert_eq!(stream_command(Some(" frame\r\n"), false).unwrap(), StreamStep::Capture);
    assert_eq!(stream_command(Some("quit"), true).unwrap(), StreamStep::Stop);
    assert_eq!(stream_command(Some("\n"), false).unwrap(), StreamStep::Ignore);
    assert_eq!(stream_command(None, false).unwrap(), StreamStep::Stop);
    let err = stream_command(Some(" jump \n"), false).unwrap_err();
    assert_eq!(err.message, "unsupported kms helper stream command: jump");
    let err = stream_command(Some("jump"), true).unwrap_err();
    assert_eq!(err.message, "unsupported kms helper dmabuf stream command: jump");
}

fn mode() -> ConnectedMode {
    ConnectedMode { card_path: "/dev/dri/card0".to_string(), width: 800, height: 600 }
}

fn display(name: &str, access: Option<&str>, active: Option<ActiveFramebuffer>) -> ProbeDisplay {
    probed_display(
        format!("/sys/class/drm/{name}"),
        name.to_string(),
        mode(),
        None,
        access.map(|a| a.to_string()),
        active,
    )
}

#[test]
fn what_is_shown_wins_over_the_mode() {
    let active = ActiveFramebuffer { width: 1, height: 2, is_linear: false, x: 3, y: 4 };
    let shown = display("d", None, Some(active));
    assert_eq!((shown.width, shown.height, shown.x, shown.y), (1, 2, Some(3), Some(4)));
    assert!(!shown.is_linear && shown.modifier_known && shown.online && shown.can_open);
    let hidden = display("d", Some("denied"), Some(active));
    assert_eq!((hidden.width, hidden.height, hidden.x, hidden.y), (800, 600, None, None));
    assert!(hidden.is_linear && !hidden.modifier_known && !hidden.can_open);
    assert_eq!(hidden.open_error.as_deref(), Some("denied"));
}

#[test]
fn access_is_checked_unless_waived() {
    assert!(check_access(&display("d", None, None), false).is_ok());
    let locked = display("d", Some("Permission denied (os error 13)"), None);
    assert!(check_access(&locked, true).is_ok());
    let err = check_access(&locked, false).unwrap_err();
    assert_eq!(err.kind, ErrorKind::PermissionDenied);
    assert_eq!(err.message, "Permission denied (os error 13)");
    let mut silent = display("d", None, None);
    silent.can_open = false;
    assert_eq!(check_access(&silent, false).unwrap_err().message, "failed to open drm device");
}

fn frame() -> FrameCapture {
    FrameCapture {
        header: FrameOutput {
            card_path: String::new(),
            connector_path: String::new(),
            name: String::new(),
            width: 1,
            height: 1,
            stride: 4,
            pixfmt: "BGRA",
            byte_len: 0,
        },
        bytes: vec![],
    }
}

#[test]
fn a_frame_is_asked_of_a_privileged_helper_once() {
    let gem = || Error::other("framebuffer has no accessible GEM handle");
    assert!(matches!(frame_outcome(Err(gem()), false), FrameOutcome::RetryPrivileged));
    assert!(matches!(frame_outcome(Err(gem()), true), FrameOutcome::Return(Err(_))));
    assert!(matches!(frame_outcome(Err(Error::other("x")), false), FrameOutcome::Return(Err(_))));
    assert!(matches!(frame_outcome(Ok(frame()), false), FrameOutcome::Return(Ok(_))));
}

#[test]
fn a_probe_lists_displays_by_name() {
    let entries = vec![
        Ok(Some(display("card1-DP-1", None, None))),
        Err(Error::other("x")),
        Ok(None),
        Ok(Some(display("card0-DP-1", None, None))),
    ];
    let names: Vec<String> = probe(Ok(entries)).unwrap().into_iter().map(|d| d.name).collect();
    assert_eq!(names, vec!["card0-DP-1", "card1-DP-1"]);
    let err = probe(Err(Error::new(ErrorKind::PermissionDenied, "denied"))).unwrap_err();
    let cause = err.cause.as_ref().unwrap();
    assert_eq!((cause.kind, cause.message.as_str()), (ErrorKind::PermissionDenied, "denied"));
    assert_eq!(err.message, "failed to read /sys/class/drm");
}

#[test]
fn a_search_ends_with_the_display_or_an_error() {
    assert!(matches!(find_display_step("a", Ok(None)), SearchStep::Continue));
    assert!(matches!(find_display_step("a", Ok(Some(display("b", None, None)))), SearchStep::Continue));
    match find_display_step("a", Ok(Some(display("a", None, None)))) {
        SearchStep::Done(Ok(found)) => assert_eq!(found.name, "a"),
        _ => panic!(),
    }
    match find_display_step("a", Err(Error::other("x"))) {
        SearchStep::Done(Err(err)) => assert_eq!(err.message, "x"),
        _ => panic!(),
    }
    assert_eq!(display_not_found("a").message, "kms display 'a' not found");
}

#[test]
fn what_the_system_says_is_kept_as_the_cause() {
    let gone = || Error::new(ErrorKind::NotFound, "gone");
    for (err, message) in [
        (listing_failure(gone()), "failed to read /sys/class/drm"),
        (launch_failure(gone()), "failed to launch privileged kms helper"),
    ] {
        assert_eq!((err.kind, err.message.as_str()), (ErrorKind::Other, message));
        let cause = err.cause.unwrap();
        assert_eq!((cause.kind, cause.message.as_str()), (ErrorKind::NotFound, "gone"));
        assert!(cause.cause.is_none());
    }
}
