use scrap::capturer::{Action, CapturedFrame, Delivery, FirstFrame, Helpers, Phase};
use scrap::error::{Error, ErrorKind};
use scrap::kms::{Display as KmsDisplay, DisplaySource, HelperDisplay};
use scrap::linux::{Capturer, Display, FoundDisplays, FoundPrimary, Opening};
use scrap::pixel::Pixfmt;
use scrap::wire::HelperFrameOutput;
use scrap::{wayland, x11};

fn x(name: &str) -> x11::Display {
    x11::Display {
        name: name.to_string(),
        origin: (-5, 6),
        width: 100,
        height: 50,
        online: true,
        primary: false,
    }
}

fn w(name: &str) -> wayland::Display {
    wayland::Display {
        name: name.to_string(),
        origin: (7, 8),
        width: 200,
        height: 100,
        logical_width: 100,
        logical_height: 50,
        scale: 2.0f64.to_bits(),
        online: false,
        primary: true,
    }
}

fn k(name: &str) -> HelperDisplay {
    HelperDisplay {
        card_path: "/dev/dri/card0".to_string(),
        connector_path: String::new(),
        name: name.to_string(),
        width: 300,
        height: 200,
        online: true,
        can_open: true,
    }
}

#[test]
fn displays_answer_for_the_way_in_use() {
    let d = Display::X11(x("a"));
    assert_eq!((d.width(), d.height(), d.logical_width(), d.logical_height()), (100, 50, 100, 50));
    assert_eq!((d.origin(), d.is_online(), d.is_primary(), d.name()), ((-5, 6), true, false, "a".to_string()));
    let d = Display::WAYLAND(w("b"));
    assert_eq!((d.width(), d.height(), d.logical_width(), d.logical_height()), (200, 100, 100, 50));
    assert_eq!((d.origin(), d.is_online(), d.is_primary(), d.name()), ((7, 8), false, true, "b".to_string()));
    let d = Display::primary(FoundPrimary::KMS(DisplaySource::Helper(vec![k("z"), k("c")]))).unwrap();
    assert_eq!((d.width(), d.height(), d.logical_width(), d.logical_height()), (300, 200, 300, 200));
    assert_eq!((d.origin(), d.is_online(), d.is_primary(), d.name()), ((0, 0), true, true, "c".to_string()));
}

#[test]
fn the_primary_display_comes_from_the_way_in_use() {
    assert!(matches!(Display::primary(FoundPrimary::X11(Ok(x("a")))), Ok(Display::X11(_))));
    assert!(matches!(Display::primary(FoundPrimary::WAYLAND(Ok(w("a")))), Ok(Display::WAYLAND(_))));
    let err = Display::primary(FoundPrimary::X11(Err(Error::other("no x")))).unwrap_err();
    assert_eq!(err.message, "no x");
    let err = Display::primary(FoundPrimary::WAYLAND(Err(Error::other("no w")))).unwrap_err();
    assert_eq!(err.message, "no w");
    let err = Display::primary(FoundPrimary::KMS(DisplaySource::Helper(vec![]))).unwrap_err();
    assert_eq!(err.kind, ErrorKind::NotFound);
}

#[test]
fn all_displays_keep_their_order() {
    let names = |all: Vec<Display>| all.iter().map(|d| d.name()).collect::<Vec<String>>();
    let all = Display::all(FoundDisplays::X11(Ok(vec![x("b"), x("a")]))).unwrap();
    assert_eq!(names(all), vec!["b", "a"]);
    let all = Display::all(FoundDisplays::WAYLAND(Ok(vec![w("b"), w("a")]))).unwrap();
    assert_eq!(names(all), vec!["b", "a"]);
    let all = Display::all(FoundDisplays::KMS(DisplaySource::Helper(vec![k("b"), k("a")]))).unwrap();
    assert_eq!(all[1].origin(), (300, 0));
    assert_eq!(names(all), vec!["a", "b"]);
    assert!(Display::all(FoundDisplays::X11(Err(Error::other("x")))).is_err());
    assert!(Display::all(FoundDisplays::WAYLAND(Err(Error::other("x")))).is_err());
    assert!(Display::all(FoundDisplays::KMS(DisplaySource::Local(Err(Error::other("x"))))).is_err());
}

fn first(outcome: Result<CapturedFrame<i32>, Error>) -> Option<FirstFrame<i32>> {
    Some(FirstFrame {
        helpers: Helpers {
            session: true,
            privileged_attempted: true,
            accessible: true,
            phase: Phase::Idle,
        },
        outcome,
    })
}

fn pixels() -> CapturedFrame<i32> {
    CapturedFrame::Pixel(HelperFrameOutput {
        width: 7,
        height: 5,
        stride: vec![28],
        pixfmt: Pixfmt::RGBA,
        data: vec![1; 140],
    })
}

fn kms(first: Option<FirstFrame<i32>>) -> Opening<i32> {
    Opening::KMS { display: KmsDisplay::from_helper_display(k("a")), use_dmabuf: false, first }
}

#[test]
fn captures_answer_for_the_way_in_use() {
    let open = |opening: Opening<i32>| -> Result<(usize, usize), Error> {
        Capturer::new(opening).map(|c| (c.width(), c.height()))
    };
    assert_eq!(open(Opening::X11(Ok(x11::Capturer { width: 1, height: 2 }))).unwrap(), (1, 2));
    assert_eq!(open(Opening::WAYLAND(Ok(wayland::Capturer { width: 3, height: 4 }))).unwrap(), (3, 4));
    assert_eq!(open(Opening::X11(Err(Error::other("x")))).unwrap_err().message, "x");
    assert_eq!(open(Opening::WAYLAND(Err(Error::other("w")))).unwrap_err().message, "w");
    assert_eq!(open(kms(first(Ok(pixels())))).unwrap(), (7, 5));
    assert_eq!(open(kms(first(Err(Error::other("no frame"))))).unwrap_err().message, "no frame");
    let err = open(kms(None)).unwrap_err();
    assert_eq!(err.kind, ErrorKind::NotFound);
    assert_eq!(err.message, "DRM device '/dev/dri/card0' not found");
}

#[test]
fn an_opened_capture_hands_out_its_first_frame() {
    let mut opened = match Capturer::new(kms(first(Ok(pixels())))) {
        Ok(Capturer::KMS(opened)) => opened,
        _ => panic!(),
    };
    assert_eq!((opened.pixfmt, opened.stride.clone()), (Pixfmt::RGBA, vec![28]));
    assert!(opened.frame_data.is_empty());
    assert!(opened.helpers.session && opened.helpers.privileged_attempted);
    let frame = match opened.next_frame() {
        Action::Return(Ok(frame)) => frame,
        _ => panic!(),
    };
    assert!(matches!(opened.frame(frame), Ok(Delivery::Pixels)));
    assert_eq!(opened.frame_data, vec![1; 140]);
    assert!(matches!(opened.next_frame(), Action::Request));
}
