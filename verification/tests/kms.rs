use scrap::error::{Error, ErrorKind};
use scrap::kms::{take_probed, Display, DisplaySource, HelperDisplay, SourceStep};
use scrap::sysfs::ConnectedMode;

fn helper(name: &str, width: usize) -> HelperDisplay {
    HelperDisplay {
        card_path: "/dev/dri/card0".to_string(),
        connector_path: format!("/sys/class/drm/{name}"),
        name: name.to_string(),
        width,
        height: 600,
        online: name != "card0-off",
        can_open: name != "card0-locked",
    }
}

fn mode(width: usize, height: usize) -> ConnectedMode {
    ConnectedMode { card_path: "/dev/dri/card2".to_string(), width, height }
}

#[test]
fn displays_stand_side_by_side_by_name() {
    let source = DisplaySource::Helper(vec![
        helper("card1-DP-1", 800),
        helper("card0-HDMI-A-1", 1920),
        helper("card0-DP-1", 1280),
    ]);
    let all = Display::all(source).unwrap();
    let names: Vec<String> = all.iter().map(|d| d.name()).collect();
    assert_eq!(names, vec!["card0-DP-1", "card0-HDMI-A-1", "card1-DP-1"]);
    let origins: Vec<(i32, i32)> = all.iter().map(|d| d.origin()).collect();
    assert_eq!(origins, vec![(0, 0), (1280, 0), (3200, 0)]);
    let primary: Vec<bool> = all.iter().map(|d| d.is_primary()).collect();
    assert_eq!(primary, vec![true, false, false]);
    assert_eq!((all[1].width(), all[1].height()), (1920, 600));
    assert_eq!(all[2].connector_path(), "/sys/class/drm/card1-DP-1");
    assert_eq!(all[2].card_path(), "/dev/dri/card0");
}

#[test]
fn positions_saturate() {
    let source = DisplaySource::Helper(vec![
        helper("a", i32::MAX as usize),
        helper("b", 10),
        helper("c", 10),
    ]);
    let origins: Vec<i32> = Display::all(source).unwrap().iter().map(|d| d.origin().0).collect();
    assert_eq!(origins, vec![0, i32::MAX, i32::MAX]);
}

#[test]
fn helper_displays_keep_what_the_helper_said() {
    let shown = Display::from_helper_display(helper("card0-off", 5));
    assert!(!shown.is_online());
    assert!(shown.accessible);
    assert!(!Display::from_helper_display(helper("card0-locked", 5)).accessible);
}

#[test]
fn local_entries_that_fail_are_passed_over() {
    let display = |name: &str| {
        Display::from_connector_path(format!("/p/{name}"), name.to_string(), mode(640, 480), true)
    };
    let source = DisplaySource::Local(Ok(vec![
        Ok(Some(display("card2-DP-2"))),
        Err(Error::other("x")),
        Ok(None),
        Ok(Some(display("card2-DP-1"))),
    ]));
    let all = Display::all(source).unwrap();
    assert_eq!(all.len(), 2);
    assert_eq!(all[0].name(), "card2-DP-1");
    assert_eq!(all[0].card_path(), "/dev/dri/card2");
    assert!(all[0].is_online());
    assert_eq!(all[1].origin(), (640, 0));
}

#[test]
fn the_primary_display_is_the_first_of_all() {
    let list = || DisplaySource::Helper(vec![helper("b", 1), helper("a", 2)]);
    let primary = Display::primary(list()).unwrap();
    assert_eq!(primary.name(), Display::all(list()).unwrap()[0].name());
    assert!(primary.is_primary());
}

#[test]
fn no_display_is_not_found() {
    let err = Display::primary(DisplaySource::Helper(vec![])).unwrap_err();
    assert_eq!((err.kind, err.message.as_str()), (ErrorKind::NotFound, "entity not found"));
    let err = Display::primary(DisplaySource::Local(Err(Error::other("no sysfs")))).unwrap_err();
    assert_eq!(err.message, "no sysfs");
    let err = Display::all(DisplaySource::Local(Err(Error::other("no sysfs")))).unwrap_err();
    assert_eq!(err.message, "no sysfs");
    assert!(Display::all(DisplaySource::Local(Ok(vec![]))).unwrap().is_empty());
}

#[test]
fn displays_of_one_name_keep_their_order() {
    let source = DisplaySource::Helper(vec![helper("x", 1), helper("x", 2), helper("x", 3)]);
    let widths: Vec<usize> = Display::all(source).unwrap().iter().map(|d| d.width()).collect();
    assert_eq!(widths, vec![1, 2, 3]);
}

#[test]
fn the_local_listing_stands_in_for_a_helper() {
    match take_probed(Ok(vec![helper("card0-DP-1", 800)])) {
        SourceStep::Use(DisplaySource::Helper(found)) => assert_eq!(found[0].name, "card0-DP-1"),
        _ => panic!(),
    }
    assert!(matches!(take_probed(Err(Error::other("no helper"))), SourceStep::ListLocally));
}

#[test]
fn displays_can_be_copied() {
    let display = Display::from_helper_display(helper("card0-DP-1", 800));
    assert_eq!(format!("{:?}", display.clone()), format!("{display:?}"));
}
