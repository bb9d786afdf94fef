use scrap::error::{Error, ErrorKind};
use scrap::sysfs::{
    begin_entry, card_name, parse_mode, pick_render_node, render_node_dir, take_modes, take_status,
    ConnectorStep,
};

#[test]
fn only_connectors_are_read() {
    assert!(matches!(begin_entry(Some("card0-DP-1")), ConnectorStep::ReadStatus));
    for name in [Some("card0"), Some("renderD128-x"), Some("version"), None] {
        assert!(matches!(begin_entry(name), ConnectorStep::Skip));
    }
}

#[test]
fn only_connected_connectors_count() {
    assert!(matches!(take_status(Ok("Connected\n".to_string())), ConnectorStep::ReadModes));
    assert!(matches!(take_status(Ok("disconnected\n".to_string())), ConnectorStep::Skip));
    match take_status(Err(Error::other("x"))) {
        ConnectorStep::Fail(err) => assert_eq!(err.message, "x"),
        _ => panic!(),
    }
}

#[test]
fn the_first_mode_counts() {
    match take_modes("card1-HDMI-A-1", Ok("\n 1920x1080 \n800x600".to_string()), ErrorKind::Other) {
        ConnectorStep::Found(found) => {
            assert_eq!(found.card_path, "/dev/dri/card1");
            assert_eq!((found.width, found.height), (1920, 1080));
        }
        _ => panic!(),
    }
    let step = take_modes("card1-DP-1", Ok("1920x1080i".to_string()), ErrorKind::Other);
    assert!(matches!(step, ConnectorStep::Skip));
    match take_modes("card1-DP-1", Ok("\n".to_string()), ErrorKind::InvalidData) {
        ConnectorStep::Fail(err) => {
            assert_eq!((err.kind, err.message.as_str()), (ErrorKind::InvalidData, "missing drm mode"))
        }
        _ => panic!(),
    }
    match take_modes("card1-DP-1", Err(Error::other("y")), ErrorKind::Other) {
        ConnectorStep::Fail(err) => assert_eq!(err.message, "y"),
        _ => panic!(),
    }
}

#[test]
fn modes_are_two_numbers() {
    assert_eq!(parse_mode("1920x1080"), Some((1920, 1080)));
    assert_eq!(parse_mode("+1x02"), Some((1, 2)));
    for mode in ["1920", "x", "1920x", "1920x1080x60", "1920 x 1080", "-1x5"] {
        assert_eq!(parse_mode(mode), None, "{mode}");
    }
    for (w, h) in [(0usize, 1usize), (3840, 2160), (usize::MAX, 7)] {
        assert_eq!(parse_mode(&format!("{w}x{h}")), Some((w, h)));
    }
}

#[test]
fn the_first_render_node_by_name_is_picked() {
    let names = vec![
        Some("card0".to_string()),
        None,
        Some("renderD129".to_string()),
        Some("renderD128".to_string()),
        Some("renderD130".to_string()),
    ];
    assert_eq!(pick_render_node(&names).as_deref(), Some("/dev/dri/renderD128"));
    assert_eq!(pick_render_node(&vec![Some("card0".to_string())]), None);
    assert_eq!(render_node_dir("card0"), "/sys/class/drm/card0/device/drm");
    assert_eq!(card_name("card0-DP-1"), "card0");
}
