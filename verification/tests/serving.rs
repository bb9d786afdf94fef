use scrap::error::{Error, ErrorKind};
use scrap::readback::ProbeDisplay;
use scrap::serving::{ServeAction, ServeEvent, ServePhase, Serving, SocketFailure};

fn display(can_open: bool) -> ProbeDisplay {
    ProbeDisplay {
        card_path: "/dev/dri/card0".to_string(),
        connector_path: "/sys/class/drm/card0-DP-1".to_string(),
        name: "card0-DP-1".to_string(),
        render_node: None,
        width: 1920,
        height: 1080,
        x: None,
        y: None,
        is_linear: true,
        modifier_known: false,
        online: true,
        can_open,
        open_error: None,
    }
}

fn result(action: ServeAction) -> Result<(), Error> {
    match action {
        ServeAction::Done(result) => result,
        other => panic!("{other:?}"),
    }
}

fn ready(socket_path: Option<&str>) -> Serving {
    let mut serving = Serving::begin(socket_path.map(str::to_string), false);
    assert!(matches!(serving.next(ServeEvent::Found(Ok(display(true)))), ServeAction::OpenCard));
    let opened = serving.next(ServeEvent::Opened(Ok(())));
    if socket_path.is_some() {
        assert!(matches!(opened, ServeAction::Connect));
        assert!(matches!(serving.next(ServeEvent::Connected(Ok(()))), ServeAction::Greet));
    } else {
        assert!(matches!(opened, ServeAction::Greet));
    }
    assert!(matches!(serving.next(ServeEvent::Greeted(Ok(()))), ServeAction::ReadLine));
    serving
}

fn line(text: &str) -> ServeEvent {
    ServeEvent::Line(Ok(Some(text.to_string())))
}

#[test]
fn serves_frames_until_told_to_quit() {
    let mut serving = ready(None);
    assert!(matches!(serving.next(line("frame\n")), ServeAction::Capture));
    assert!(matches!(serving.next(ServeEvent::Captured(Ok(()))), ServeAction::ReadLine));
    assert!(matches!(serving.next(line(" \n")), ServeAction::ReadLine));
    assert!(result(serving.next(line("quit\n"))).is_ok());
    assert_eq!(serving.phase, ServePhase::End);
}

#[test]
fn serving_stops_at_the_end_of_the_input() {
    let mut serving = ready(Some("/tmp/s"));
    assert!(result(serving.next(ServeEvent::Line(Ok(None)))).is_ok());
}

#[test]
fn an_unknown_command_ends_the_service() {
    let err = result(ready(None).next(line("stop\n"))).unwrap_err();
    assert_eq!(err.message, "unsupported kms helper stream command: stop");
    let err = result(ready(Some("/tmp/s")).next(line("stop\n"))).unwrap_err();
    assert_eq!(err.message, "unsupported kms helper dmabuf stream command: stop");
}

#[test]
fn a_card_that_cannot_be_opened_is_served_with_more_rights_only() {
    let mut serving = Serving::begin(None, false);
    let err = result(serving.next(ServeEvent::Found(Ok(display(false))))).unwrap_err();
    assert_eq!(err.kind, ErrorKind::PermissionDenied);
    assert_eq!(err.message, "failed to open drm device");
    let mut serving = Serving::begin(None, true);
    assert!(matches!(serving.next(ServeEvent::Found(Ok(display(false)))), ServeAction::OpenCard));
}

#[test]
fn a_missing_socket_is_reported() {
    let refused = || Error::new(ErrorKind::PermissionDenied, "refused");
    for (failure, message) in [
        (SocketFailure::Create(refused()), "failed to create kms dmabuf datagram socket"),
        (SocketFailure::Connect(refused()), "failed to connect kms dmabuf socket /tmp/s"),
    ] {
        let mut serving = Serving::begin(Some("/tmp/s".to_string()), false);
        serving.next(ServeEvent::Found(Ok(display(true))));
        serving.next(ServeEvent::Opened(Ok(())));
        let err = result(serving.next(ServeEvent::Connected(Err(failure)))).unwrap_err();
        assert_eq!(err.kind, ErrorKind::Other);
        assert_eq!(err.message, message);
        let cause = err.cause.unwrap();
        assert_eq!((cause.kind, cause.message.as_str()), (ErrorKind::PermissionDenied, "refused"));
    }
}

#[test]
fn failures_of_the_system_end_the_service() {
    let gone = || Error::new(ErrorKind::BrokenPipe, "gone");
    let mut serving = Serving::begin(None, false);
    assert_eq!(result(serving.next(ServeEvent::Found(Err(gone())))).unwrap_err().message, "gone");
    let mut serving = Serving::begin(None, false);
    serving.next(ServeEvent::Found(Ok(display(true))));
    assert_eq!(result(serving.next(ServeEvent::Opened(Err(gone())))).unwrap_err().message, "gone");
    let mut serving = ready(None);
    assert_eq!(result(serving.next(ServeEvent::Line(Err(gone())))).unwrap_err().message, "gone");
    let mut serving = ready(None);
    serving.next(line("frame"));
    assert_eq!(result(serving.next(ServeEvent::Captured(Err(gone())))).unwrap_err().message, "gone");
}
