use scrap::error::{Error, ErrorKind};
use scrap::formats::{ARGB8888, BIG_ENDIAN, XRGB8888};
use scrap::readback::{
    active_framebuffer, dmabuf_header, finish_capture, frame_has_visible_rgb, framebuffer_is_linear,
    framebuffer_slice, has_printable_error, has_printable_refusal, plan_capture, plan_dmabuf, ActiveFramebuffer, DmabufExport, FrameCapture,
    FrameOutput, FrameSearch, PlanarError, PlanarFramebuffer, ProbeDisplay, Readback,
};
use scrap::retry::should_retry_privileged_message;

const NV12: u32 = u32::from_le_bytes(*b"NV12");

fn planar() -> PlanarFramebuffer {
    PlanarFramebuffer {
        width: 2,
        height: 3,
        fourcc: XRGB8888,
        modifier: None,
        buffers: [Some(11), None, None, None],
        pitches: [8, 0, 0, 0],
        offsets: [16, 0, 0, 0],
    }
}

fn display() -> ProbeDisplay {
    ProbeDisplay {
        card_path: "/dev/dri/card0".to_string(),
        connector_path: "/sys/class/drm/card0-DP-1".to_string(),
        name: "card0-DP-1".to_string(),
        render_node: Some("/dev/dri/renderD128".to_string()),
        width: 2,
        height: 3,
        x: None,
        y: None,
        is_linear: true,
        modifier_known: false,
        online: true,
        can_open: true,
        open_error: None,
    }
}

#[test]
fn plans_to_read_all_rows() {
    let plan = plan_capture(None, Ok(planar())).unwrap();
    assert_eq!((plan.buffer, plan.pixfmt, plan.force_opaque), (11, "BGRA", true));
    assert_eq!((plan.width, plan.height, plan.stride), (2, 3, 8));
    assert_eq!((plan.offset, plan.body_len, plan.map_len), (16, 24, 40));
    let mut alpha = planar();
    alpha.fourcc = ARGB8888;
    alpha.modifier = Some(0);
    alpha.buffers[0] = None;
    let plan = plan_capture(Some(12), Ok(alpha)).unwrap();
    assert_eq!((plan.buffer, plan.force_opaque), (12, false));
}

#[test]
fn refuses_in_order() {
    let mut bad = planar();
    bad.modifier = Some(1);
    bad.buffers = [None, Some(1), None, None];
    bad.fourcc = NV12;
    bad.pitches[0] = u32::MAX;
    let err = plan_capture(None, Ok(bad)).unwrap_err();
    assert_eq!(err.kind, ErrorKind::Unsupported);
    assert!(err.message.starts_with("non-linear framebuffer modifier "));
    assert!(!should_retry_privileged_message(&err.message));

    let mut bad = planar();
    bad.buffers = [None, Some(1), None, None];
    let err = plan_capture(None, Ok(bad)).unwrap_err();
    assert_eq!((err.kind, err.message.as_str()), (ErrorKind::Other, "framebuffer has no accessible GEM handle"));
    assert!(should_retry_privileged_message(&err.message));

    for at in 1..4 {
        let mut bad = planar();
        bad.buffers[at] = Some(1);
        bad.fourcc = NV12;
        let err = plan_capture(None, Ok(bad)).unwrap_err();
        assert_eq!(err.kind, ErrorKind::Unsupported);
        assert_eq!(err.message, "multi-plane framebuffers are not supported yet");
    }

    let mut bad = planar();
    bad.fourcc = NV12;
    let err = plan_capture(None, Ok(bad)).unwrap_err();
    assert_eq!(err.message, "unsupported framebuffer format: NV12");
}

#[test]
fn passes_on_why_a_framebuffer_is_unknown() {
    let err = plan_capture(None, Err(PlanarError::Io(Error::other("gone")))).unwrap_err();
    assert_eq!(err.message, "gone");
    let err = plan_capture(None, Err(PlanarError::UnrecognizedFourcc(0))).unwrap_err();
    assert_eq!(err.kind, ErrorKind::Unsupported);
    assert_eq!(err.message, "unsupported framebuffer format: UnrecognizedFourcc(0)");
    let err = plan_dmabuf(None, Err(PlanarError::UnrecognizedFourcc(0))).unwrap_err();
    assert_eq!(err.message, "unsupported framebuffer format: UnrecognizedFourcc(0)");
    let err = plan_dmabuf(None, Err(PlanarError::Io(Error::other("gone")))).unwrap_err();
    assert_eq!(err.message, "gone");
}

#[test]
fn slices_rows_out_of_mappings() {
    let mapping = [0u8, 1, 2, 3, 4, 5];
    assert_eq!(framebuffer_slice(&mapping, 2, 3).unwrap(), vec![2, 3, 4]);
    assert_eq!(framebuffer_slice(&mapping, 6, 0).unwrap(), Vec::<u8>::new());
    let err = framebuffer_slice(&mapping, 2, 5).unwrap_err();
    assert_eq!(err.message, "framebuffer mapping smaller than expected");
    let err = framebuffer_slice(&mapping, usize::MAX, 1).unwrap_err();
    assert_eq!(err.message, "framebuffer slice overflow");
}

fn unread() -> Result<Vec<u8>, Error> {
    Err(Error::other("not read"))
}

#[test]
fn a_visible_first_reading_counts() {
    let plan = plan_capture(None, Ok(planar())).unwrap();
    let read = Readback::new(plan, vec![0, 0, 1, 0, 0, 0, 0, 0]);
    assert!(read.visible);
    let frame = finish_capture(&display(), read, Ok(vec![9; 8]));
    assert_eq!(frame.bytes, vec![0, 0, 1, 255, 0, 0, 0, 255]);
    assert_eq!(frame.header.byte_len, 8);
    assert_eq!((frame.header.width, frame.header.height, frame.header.stride), (2, 3, 8));
    assert_eq!(frame.header.pixfmt, "BGRA");
    assert_eq!(frame.header.name, "card0-DP-1");
    assert_eq!(frame.header.card_path, "/dev/dri/card0");
    assert_eq!(frame.header.connector_path, "/sys/class/drm/card0-DP-1");
}

#[test]
fn a_dark_first_reading_gives_way_to_a_visible_second() {
    let plan = || plan_capture(None, Ok(planar())).unwrap();
    let read = Readback::new(plan(), vec![0; 4]);
    assert!(!read.visible);
    assert_eq!(finish_capture(&display(), read, Ok(vec![7; 4])).bytes, vec![7, 7, 7, 255]);
    let read = Readback::new(plan(), vec![0; 4]);
    assert_eq!(finish_capture(&display(), read, Ok(vec![0; 8])).bytes, vec![0, 0, 0, 255]);
    let read = Readback::new(plan(), vec![0; 4]);
    assert_eq!(finish_capture(&display(), read, unread()).bytes, vec![0, 0, 0, 255]);
}

fn frame(bytes: Vec<u8>) -> FrameCapture {
    FrameCapture {
        header: FrameOutput {
            card_path: String::new(),
            connector_path: String::new(),
            name: String::new(),
            width: 1,
            height: 1,
            stride: 4,
            pixfmt: "BGRA",
            byte_len: bytes.len(),
        },
        bytes,
    }
}

#[test]
fn search_ends_with_the_first_visible_frame() {
    let mut search = FrameSearch::new();
    assert!(search.offer(Ok(frame(vec![0, 0, 0, 1]))).is_none());
    assert!(search.offer(Err(Error::other("x"))).is_none());
    let found = search.offer(Ok(frame(vec![1, 0, 0, 0]))).unwrap();
    assert!(frame_has_visible_rgb(&found));
    assert_eq!(found.bytes, vec![1, 0, 0, 0]);
}

#[test]
fn search_falls_back_to_the_first_frame() {
    let mut search = FrameSearch::new();
    assert!(search.offer(Err(Error::other("x"))).is_none());
    assert!(search.offer(Ok(frame(vec![0, 0, 0, 1]))).is_none());
    assert!(search.offer(Ok(frame(vec![0, 0, 0, 2]))).is_none());
    assert!(search.offer(Err(Error::other("y"))).is_none());
    assert_eq!(search.finish().unwrap().bytes, vec![0, 0, 0, 1]);
}

#[test]
fn search_without_frames_gives_the_last_error() {
    let mut search = FrameSearch::new();
    assert!(search.offer(Err(Error::other("x"))).is_none());
    assert!(search.offer(Err(Error::other("y"))).is_none());
    assert_eq!(search.finish().unwrap_err().message, "y");
    let err = FrameSearch::new().finish().unwrap_err();
    assert_eq!(err.message, "crtc has no active framebuffer");
}

#[test]
fn exports_planes_with_a_pitch() {
    let mut nv12 = planar();
    nv12.fourcc = NV12;
    nv12.modifier = Some(3);
    nv12.pitches = [64, 64, 0, 8];
    nv12.offsets = [0, 4096, 1, 2];
    nv12.buffers = [Some(5), None, Some(6), Some(7)];
    let plan = plan_dmabuf(None, Ok(nv12)).unwrap();
    assert_eq!(
        plan.exports,
        vec![
            DmabufExport { buffer: 5, stride: 64, offset: 0 },
            DmabufExport { buffer: 5, stride: 64, offset: 4096 },
            DmabufExport { buffer: 7, stride: 8, offset: 2 },
        ]
    );
    assert_eq!((plan.width, plan.height, plan.fourcc, plan.modifier), (2, 3, NV12, 3));
    let header = dmabuf_header(&display(), &plan);
    assert_eq!(header.planes.len(), 3);
    assert_eq!((header.planes[1].stride, header.planes[1].offset), (64, 4096));
    assert_eq!(header.render_node.as_deref(), Some("/dev/dri/renderD128"));
    assert_eq!((header.fourcc, header.modifier, header.width, header.height), (NV12, 3, 2, 3));
    assert_eq!(header.name, "card0-DP-1");
}

#[test]
fn exports_without_modifier_as_linear() {
    let mut plain = planar();
    plain.buffers[0] = None;
    let plan = plan_dmabuf(Some(4), Ok(plain)).unwrap();
    assert_eq!(plan.modifier, 0);
    assert_eq!(plan.exports, vec![DmabufExport { buffer: 4, stride: 8, offset: 16 }]);
}

#[test]
fn refuses_to_export_nothing() {
    let mut none = planar();
    none.buffers[0] = None;
    let err = plan_dmabuf(None, Ok(none)).unwrap_err();
    assert_eq!(err.message, "framebuffer has no accessible GEM handle");
    let mut none = planar();
    none.pitches[0] = 0;
    let err = plan_dmabuf(None, Ok(none)).unwrap_err();
    assert_eq!((err.kind, err.message.as_str()), (ErrorKind::Other, "framebuffer has no exportable dmabuf planes"));
}

#[test]
fn unknown_modifiers_count_as_linear() {
    let mut tiled = planar();
    tiled.modifier = Some(0x0100_0000_0000_0001);
    assert!(!framebuffer_is_linear(&Ok(tiled)));
    assert!(framebuffer_is_linear(&Ok(planar())));
    let mut linear = planar();
    linear.modifier = Some(0);
    assert!(framebuffer_is_linear(&Ok(linear)));
    assert!(framebuffer_is_linear(&Err(PlanarError::UnrecognizedFourcc(1))));
}

#[test]
fn positions_are_cut_to_what_fits() {
    let active = active_framebuffer((1920, 1080), (3840, u32::MAX), &Ok(planar()));
    assert_eq!(
        active,
        ActiveFramebuffer { width: 1920, height: 1080, is_linear: true, x: 3840, y: i32::MAX }
    );
}

#[test]
fn a_frame_holds_all_rows() {
    let plan = plan_capture(None, Ok(planar())).unwrap();
    let prime = vec![0; plan.body_len];
    let dumb = vec![5; plan.body_len];
    let frame = finish_capture(&display(), Readback::new(plan, prime), Ok(dumb));
    assert_eq!(frame.bytes.len(), frame.header.stride * frame.header.height);
    assert_eq!(frame.header.byte_len, 24);
}

#[test]
fn tells_which_refusals_can_be_printed() {
    let odd = || PlanarFramebuffer { fourcc: BIG_ENDIAN, ..planar() };
    assert!(has_printable_refusal(None, &Ok(planar())));
    assert!(!has_printable_refusal(None, &Ok(odd())));
    // Another refusal comes first.
    assert!(has_printable_refusal(None, &Ok(PlanarFramebuffer { modifier: Some(1), ..odd() })));
    assert!(has_printable_refusal(None, &Ok(PlanarFramebuffer { buffers: [None; 4], ..odd() })));
    let unknown = |code| Err(PlanarError::UnrecognizedFourcc(code));
    let one_character = u32::from_le_bytes([0xf0, 0x9f, 0x98, 0x80]);
    assert!(!has_printable_refusal(None, &unknown(one_character)));
    assert!(!has_printable_error(&unknown(one_character)));
    assert!(has_printable_error(&unknown(1)));
    assert!(has_printable_error(&Ok(odd())));
}
