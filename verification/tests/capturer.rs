use scrap::capturer::{use_dmabuf_capture, Action, CapturedFrame, Capturer, Delivery, Phase};
use scrap::error::{Error, ErrorKind};
use scrap::kms::{Display, HelperDisplay};
use scrap::pixel::Pixfmt;
use scrap::wire::{DmabufFrame, HelperFrameOutput};

fn display(can_open: bool) -> Display {
    Display::from_helper_display(HelperDisplay {
        card_path: "/dev/dri/card0".to_string(),
        connector_path: "/sys/class/drm/card0-DP-1".to_string(),
        name: "card0-DP-1".to_string(),
        width: 640,
        height: 480,
        online: true,
        can_open,
    })
}

fn capturer(can_open: bool) -> Capturer<i32> {
    Capturer::begin(display(can_open), false)
}

fn pixels(width: usize, data: Vec<u8>) -> CapturedFrame<i32> {
    CapturedFrame::Pixel(HelperFrameOutput {
        width,
        height: 1,
        stride: vec![width * 4],
        pixfmt: Pixfmt::RGBA,
        data,
    })
}

fn dmabuf(width: usize) -> CapturedFrame<i32> {
    CapturedFrame::Dmabuf(DmabufFrame { width, height: 9, fourcc: 1, modifier: 2, planes: vec![] })
}

fn denied() -> Error {
    Error::new(ErrorKind::PermissionDenied, "Permission denied")
}

fn is_spawn(action: Action<i32>, wanted: bool) -> bool {
    matches!(action, Action::Spawn { privileged } if privileged == wanted)
}

#[test]
fn a_missing_card_is_not_found() {
    let made: Result<Capturer<i32>, Error> = Capturer::new(display(true), false, None);
    match made {
        Ok(_) => panic!(),
        Err(err) => {
            assert_eq!(err.kind, ErrorKind::NotFound);
            assert_eq!(err.message, "DRM device '/dev/dri/card0' not found");
        }
    }
}

#[test]
fn a_new_capturer_has_the_size_of_the_display() {
    let capturer = capturer(true);
    assert_eq!((capturer.width(), capturer.height()), (640, 480));
    assert_eq!(capturer.pixfmt, Pixfmt::BGRA);
    assert_eq!(capturer.stride, vec![0]);
}

#[test]
fn a_frame_takes_one_start_and_one_request() {
    let mut capturer = capturer(true);
    assert!(is_spawn(capturer.read_frame(), false));
    assert!(matches!(capturer.spawned(Ok(())), Action::Request));
    match capturer.answered(Ok(pixels(1, vec![1]))) {
        Action::Return(Ok(CapturedFrame::Pixel(frame))) => assert_eq!(frame.data, vec![1]),
        _ => panic!(),
    }
    assert!(matches!(capturer.read_frame(), Action::Request));
}

#[test]
fn a_locked_card_starts_a_privileged_helper_at_once() {
    let mut capturer = capturer(false);
    assert!(is_spawn(capturer.read_frame(), true));
    match capturer.spawned(Err(denied())) {
        Action::Return(Err(err)) => assert_eq!(err.message, "Permission denied"),
        _ => panic!(),
    }
}

#[test]
fn missing_rights_start_a_privileged_helper_once() {
    let mut capturer = capturer(true);
    assert!(is_spawn(capturer.read_frame(), false));
    assert!(matches!(capturer.spawned(Ok(())), Action::Request));
    let gem = Error::other("framebuffer has no accessible GEM handle");
    assert!(is_spawn(capturer.answered(Err(gem)), true));
    assert!(matches!(capturer.spawned(Ok(())), Action::Request));
    // The second failure is final, and the session stays.
    match capturer.answered(Err(denied())) {
        Action::Return(Err(err)) => assert_eq!(err.kind, ErrorKind::PermissionDenied),
        _ => panic!(),
    }
    assert!(capturer.helpers.session);
    // The next failure closes it without another try.
    assert!(matches!(capturer.read_frame(), Action::Request));
    assert!(matches!(capturer.answered(Err(denied())), Action::Return(Err(_))));
    assert!(!capturer.helpers.session);
    assert!(is_spawn(capturer.read_frame(), false));
    assert!(matches!(capturer.spawned(Err(denied())), Action::Return(Err(_))));
}

#[test]
fn a_failed_start_is_tried_again_too() {
    let mut capturer = capturer(true);
    assert!(is_spawn(capturer.read_frame(), false));
    assert!(is_spawn(capturer.spawned(Err(denied())), true));
    assert!(matches!(capturer.spawned(Err(denied())), Action::Return(Err(_))));
    assert_eq!(capturer.helpers.phase, Phase::Idle);
}

#[test]
fn other_failures_are_final() {
    let mut capturer = capturer(true);
    assert!(is_spawn(capturer.read_frame(), false));
    match capturer.spawned(Err(Error::new(ErrorKind::Unsupported, "tiled"))) {
        Action::Return(Err(err)) => assert_eq!(err.message, "tiled"),
        _ => panic!(),
    }
    assert!(!capturer.helpers.privileged_attempted);
}

#[test]
fn the_primed_frame_is_handed_out_first() {
    let mut capturer = capturer(true);
    capturer.prime_frame(pixels(2, vec![1, 2, 3]));
    assert_eq!((capturer.width(), capturer.height()), (2, 1));
    assert_eq!((capturer.pixfmt, capturer.stride.clone()), (Pixfmt::RGBA, vec![8]));
    assert!(capturer.frame_data.is_empty());
    let frame = match capturer.next_frame() {
        Action::Return(Ok(frame)) => frame,
        _ => panic!(),
    };
    assert_eq!(frame.size(), (2, 1));
    assert!(is_spawn(capturer.next_frame(), false));
    assert!(matches!(capturer.frame(frame), Ok(Delivery::Pixels)));
    assert_eq!(capturer.frame_data, vec![1, 2, 3]);
}

#[test]
fn the_same_frame_is_not_handed_out_twice() {
    let mut capturer = capturer(true);
    assert!(matches!(capturer.frame(pixels(2, vec![1, 2])), Ok(Delivery::Pixels)));
    match capturer.frame(pixels(2, vec![1, 2])) {
        Err(err) => {
            assert_eq!((err.kind, err.message.as_str()), (ErrorKind::WouldBlock, "operation would block"))
        }
        _ => panic!(),
    }
    assert!(matches!(capturer.frame(pixels(2, vec![1, 3])), Ok(Delivery::Pixels)));
    // Equal bytes in another layout are another frame.
    assert!(matches!(capturer.frame(pixels(3, vec![1, 3])), Ok(Delivery::Pixels)));
    assert_eq!(capturer.width(), 3);
}

#[test]
fn exported_frames_are_always_handed_out() {
    let mut capturer = capturer(true);
    for _ in 0..2 {
        match capturer.frame(dmabuf(77)) {
            Ok(Delivery::Dmabuf(frame)) => assert_eq!(frame.modifier, 2),
            _ => panic!(),
        }
        assert_eq!((capturer.width(), capturer.height()), (77, 9));
    }
    capturer.prime_frame(dmabuf(5));
    assert_eq!(capturer.width(), 5);
    assert_eq!(capturer.pixfmt, Pixfmt::BGRA);
}

#[test]
fn the_option_is_read_without_case() {
    for value in ["1", "true", "TRUE", "y", "Yes"] {
        assert!(use_dmabuf_capture(Some(value)), "{value}");
    }
    for value in ["", "0", "no", "yes ", "on"] {
        assert!(!use_dmabuf_capture(Some(value)), "{value}");
    }
    assert!(!use_dmabuf_capture(None));
}
