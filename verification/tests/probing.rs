use scrap::error::Error;
use scrap::probing::{DisplayProbe, ProbeAction, ProbeEvent};
use scrap::readback::{ActiveFramebuffer, ProbeDisplay};

fn begin() -> DisplayProbe {
    let path = "/sys/class/drm/card1-DP-2".to_string();
    DisplayProbe::begin(path, Some("card1-DP-2".to_string())).unwrap()
}

fn done(action: ProbeAction) -> Result<Option<ProbeDisplay>, Error> {
    match action {
        ProbeAction::Done(result) => result,
        other => panic!("{other:?}"),
    }
}

fn at_modes() -> DisplayProbe {
    let (probe, action) = begin().next(ProbeEvent::Status(Ok("connected\n".to_string())));
    assert!(matches!(action, ProbeAction::ReadModes));
    probe.unwrap()
}

fn at_access() -> DisplayProbe {
    let (probe, action) = at_modes().next(ProbeEvent::Modes(Ok("800x600\n".to_string())));
    match action {
        ProbeAction::ListRenderNodes(dir) => assert_eq!(dir, "/sys/class/drm/card1/device/drm"),
        other => panic!("{other:?}"),
    }
    let names = vec![Some("renderD129".to_string()), Some("renderD128".to_string())];
    let (probe, action) = probe.unwrap().next(ProbeEvent::RenderNodes(Some(names)));
    match action {
        ProbeAction::OpenCard(path) => assert_eq!(path, "/dev/dri/card1"),
        other => panic!("{other:?}"),
    }
    probe.unwrap()
}

#[test]
fn entries_that_are_no_connectors_are_passed_over() {
    for name in [None, Some("card1".to_string()), Some("version-1".to_string())] {
        assert!(DisplayProbe::begin(String::new(), name).is_none());
    }
}

#[test]
fn a_card_that_can_be_opened_is_inspected() {
    let (probe, action) = at_access().next(ProbeEvent::Access(None));
    match action {
        ProbeAction::InspectCard(path) => assert_eq!(path, "/dev/dri/card1"),
        other => panic!("{other:?}"),
    }
    let active = ActiveFramebuffer { width: 640, height: 480, is_linear: false, x: 1, y: 2 };
    let (none, action) = probe.unwrap().next(ProbeEvent::Active(Some(active)));
    assert!(none.is_none());
    let display = done(action).unwrap().unwrap();
    assert_eq!((display.width, display.height, display.x, display.y), (640, 480, Some(1), Some(2)));
    assert!(display.can_open && display.modifier_known && !display.is_linear);
    assert_eq!(display.render_node.as_deref(), Some("/dev/dri/renderD128"));
    assert_eq!((display.card_path.as_str(), display.name.as_str()), ("/dev/dri/card1", "card1-DP-2"));
    assert_eq!(display.connector_path, "/sys/class/drm/card1-DP-2");
    let (probe, _) = at_access().next(ProbeEvent::Access(None));
    let (_, action) = probe.unwrap().next(ProbeEvent::Active(None));
    let display = done(action).unwrap().unwrap();
    assert_eq!((display.width, display.height, display.x), (800, 600, None));
    assert!(display.is_linear && !display.modifier_known);
}

#[test]
fn a_locked_card_is_still_a_display() {
    let (none, action) = at_access().next(ProbeEvent::Access(Some("denied".to_string())));
    assert!(none.is_none());
    let display = done(action).unwrap().unwrap();
    assert!(!display.can_open);
    assert_eq!(display.open_error.as_deref(), Some("denied"));
    assert_eq!((display.width, display.height), (800, 600));
}

#[test]
fn readings_may_end_the_probe() {
    let (_, action) = begin().next(ProbeEvent::Status(Ok("disconnected".to_string())));
    assert!(done(action).unwrap().is_none());
    let (_, action) = begin().next(ProbeEvent::Status(Err(Error::other("s"))));
    assert_eq!(done(action).unwrap_err().message, "s");
    let (_, action) = at_modes().next(ProbeEvent::Modes(Ok("wide".to_string())));
    assert!(done(action).unwrap().is_none());
    let (_, action) = at_modes().next(ProbeEvent::Modes(Ok("\n".to_string())));
    assert_eq!(done(action).unwrap_err().message, "missing drm mode");
    let (_, action) = at_modes().next(ProbeEvent::Modes(Err(Error::other("m"))));
    assert_eq!(done(action).unwrap_err().message, "m");
}

#[test]
fn unlisted_nodes_are_no_nodes() {
    let (probe, _) = at_modes().next(ProbeEvent::Modes(Ok("800x600\n".to_string())));
    let (probe, _) = probe.unwrap().next(ProbeEvent::RenderNodes(None));
    let (_, action) = probe.unwrap().next(ProbeEvent::Access(Some("denied".to_string())));
    assert!(done(action).unwrap().unwrap().render_node.is_none());
}
