use scrap::error::ErrorKind;
use scrap::pixel::{bytes_have_visible_rgb, force_opaque_alpha, parse_pixfmt, Pixfmt};

#[test]
fn parses_announced_layouts() {
    assert_eq!(parse_pixfmt("BGRA").unwrap(), Pixfmt::BGRA);
    assert_eq!(parse_pixfmt("RGBA").unwrap(), Pixfmt::RGBA);
    assert_eq!(parse_pixfmt("RGB565LE").unwrap(), Pixfmt::RGB565LE);
    let err = parse_pixfmt("bgra").unwrap_err();
    assert_eq!(err.kind, ErrorKind::Unsupported);
    assert_eq!(err.message, "unsupported kms helper pixfmt 'bgra'");
}

#[test]
fn alpha_shows_nothing() {
    assert!(!bytes_have_visible_rgb("BGRA", &[0, 0, 0, 255, 0, 0, 0, 7]));
    assert!(bytes_have_visible_rgb("RGBA", &[0, 0, 0, 255, 0, 1, 0, 0]));
}

#[test]
fn cut_off_pixels_do_not_count() {
    assert!(!bytes_have_visible_rgb("BGRA", &[0, 0, 0, 0, 9, 9, 9]));
    assert!(!bytes_have_visible_rgb("RGB565LE", &[0, 0, 5]));
    assert!(bytes_have_visible_rgb("RGB565LE", &[0, 0, 0, 5]));
    assert!(bytes_have_visible_rgb("other", &[0, 0, 5]));
    assert!(!bytes_have_visible_rgb("other", &[]));
}

#[test]
fn forces_the_fourth_byte_of_whole_pixels() {
    let mut bytes = [1u8, 2, 3, 4, 5, 6, 7, 8, 9, 10];
    force_opaque_alpha(&mut bytes);
    assert_eq!(bytes, [1, 2, 3, 255, 5, 6, 7, 255, 9, 10]);
    let once = bytes;
    force_opaque_alpha(&mut bytes);
    assert_eq!(bytes, once);
}

#[test]
fn opaque_alpha_keeps_visibility() {
    for frame in [vec![0u8; 8], vec![0, 0, 0, 9, 0, 0, 0, 0], vec![0, 0, 4, 0]] {
        let before = bytes_have_visible_rgb("BGRA", &frame);
        let mut frame = frame;
        force_opaque_alpha(&mut frame);
        assert_eq!(bytes_have_visible_rgb("BGRA", &frame), before);
    }
}
