use drm::buffer::DrmFourcc;
use scrap::error::ErrorKind;
use scrap::formats::{
    is_printable_code, is_readable, map_drm_fourcc, non_linear_error, should_force_opaque_alpha,
    unsupported_format_error, validate_modifier, ABGR8888, ARGB8888, BIG_ENDIAN,
    RGB565, XBGR8888, XRGB8888,
};
use scrap::retry::should_retry_privileged_message;

fn code(text: &[u8; 4]) -> u32 {
    u32::from_le_bytes(*text)
}

#[test]
fn names_layouts_of_known_formats() {
    assert_eq!(map_drm_fourcc(code(b"AR24")).unwrap(), "BGRA");
    assert_eq!(map_drm_fourcc(code(b"XR24")).unwrap(), "BGRA");
    assert_eq!(map_drm_fourcc(code(b"AB24")).unwrap(), "RGBA");
    assert_eq!(map_drm_fourcc(code(b"XB24")).unwrap(), "RGBA");
    assert_eq!(map_drm_fourcc(code(b"RG16")).unwrap(), "RGB565LE");
    assert_eq!(
        [ARGB8888, XRGB8888, ABGR8888, XBGR8888, RGB565],
        [code(b"AR24"), code(b"XR24"), code(b"AB24"), code(b"XB24"), code(b"RG16")]
    );
}

#[test]
fn constants_are_those_of_the_drm() {
    assert_eq!(ARGB8888, DrmFourcc::Argb8888 as u32);
    assert_eq!(XRGB8888, DrmFourcc::Xrgb8888 as u32);
    assert_eq!(ABGR8888, DrmFourcc::Abgr8888 as u32);
    assert_eq!(XBGR8888, DrmFourcc::Xbgr8888 as u32);
    assert_eq!(RGB565, DrmFourcc::Rgb565 as u32);
}

#[test]
fn names_unknown_formats_in_errors() {
    let err = map_drm_fourcc(code(b"NV12")).unwrap_err();
    assert_eq!(err.kind, ErrorKind::Unsupported);
    assert_eq!(err.message, "unsupported framebuffer format: NV12");
    let err = unsupported_format_error(828601953);
    assert_eq!(err.message, "unsupported framebuffer format: UnrecognizedFourcc(avc1, 828601953)");
    let err = unsupported_format_error(0);
    assert_eq!(err.message, "unsupported framebuffer format: UnrecognizedFourcc(0)");
}

#[test]
fn tells_codes_that_cannot_be_printed() {
    assert_eq!(BIG_ENDIAN, DrmFourcc::Big_endian as u32);
    assert!(!is_printable_code(BIG_ENDIAN));
    let mut bytes = [0u8; 4];
    '\u{1f600}'.encode_utf8(&mut bytes);
    assert!(!is_printable_code(u32::from_le_bytes(bytes)));
    '\u{10ffff}'.encode_utf8(&mut bytes);
    assert!(!is_printable_code(u32::from_le_bytes(bytes)));
    assert!(is_printable_code(u32::from_le_bytes([0xf0, 0x80, 0x80, 0x80])));
    assert!(is_printable_code(u32::from_le_bytes([0xf4, 0x90, 0x80, 0x80])));
    for c in [code(b"XR24"), 0, u32::MAX, u32::from_le_bytes([0xe2, 0x82, 0xac, b'x'])] {
        assert!(is_printable_code(c));
        unsupported_format_error(c);
    }
}

#[test]
fn forces_alpha_of_formats_without_alpha() {
    assert!(should_force_opaque_alpha(XRGB8888));
    assert!(should_force_opaque_alpha(XBGR8888));
    assert!(!should_force_opaque_alpha(ARGB8888));
    assert!(!should_force_opaque_alpha(ABGR8888));
    assert!(!should_force_opaque_alpha(RGB565));
    assert!(!should_force_opaque_alpha(code(b"NV12")));
}

#[test]
fn accepts_linear_modifiers_alone() {
    assert!(validate_modifier(None).is_ok());
    assert!(validate_modifier(Some(0)).is_ok());
    let err = validate_modifier(Some(0x0100_0000_0000_0001)).unwrap_err();
    assert_eq!(err.kind, ErrorKind::Unsupported);
    assert_eq!(
        err.message,
        "non-linear framebuffer modifier I915_x_tiled; the CPU/KMS readback path requires a linear \
         buffer \u{2014} use the dmabuf/VAAPI capture path"
    );
    assert!(!should_retry_privileged_message(&err.message));
    let err = validate_modifier(Some(0x00ff_ffff_ffff_ffff)).unwrap_err();
    assert!(err.message.starts_with("non-linear framebuffer modifier Invalid; "));
    let err = validate_modifier(Some(5)).unwrap_err();
    assert!(err.message.starts_with("non-linear framebuffer modifier Unrecognized(5); "));
    assert!(!should_retry_privileged_message(&err.message));
}

#[test]
fn only_a_text_with_blanks_could_call_for_more_rights() {
    let err = non_linear_error("permission denied");
    assert!(should_retry_privileged_message(&err.message));
    let err = non_linear_error("permission_denied");
    assert!(!should_retry_privileged_message(&err.message));
}

#[test]
fn five_formats_can_be_read_back() {
    for code in [ABGR8888, ARGB8888, RGB565, XBGR8888, XRGB8888] {
        assert!(is_readable(code));
    }
    assert!(!is_readable(DrmFourcc::Nv12 as u32));
    assert!(!is_readable(0));
}
