use scrap::convert::{
    downloaded_nv12_to_rgba, I420Layout, ImageFormat, ImageRgb, YuvFunction,
};
use scrap::hwcodec::{
    AVPixelFormat, DecodeFrame, HwDmabufEncoder, HwDmabufEncoderConfig, HwRamDecoderImage,
};
use scrap::hwconfig::DataFormat;

fn frame(pixfmt: AVPixelFormat) -> DecodeFrame {
    DecodeFrame {
        pixfmt,
        width: 3,
        height: 2,
        data: vec![vec![16; 8], vec![128; 4], vec![128; 4]],
        linesize: vec![4, 4, 2],
        key: false,
    }
}

fn rgb(fmt: ImageFormat, align: usize) -> ImageRgb {
    ImageRgb { raw: vec![9; 3], w: 0, h: 0, fmt, align }
}

fn layout() -> I420Layout {
    I420Layout { linesize: vec![8, 4, 4], offset: vec![16, 20], length: 24 }
}

#[test]
fn rows_are_aligned() {
    let nv12 = frame(AVPixelFormat::AV_PIX_FMT_NV12);
    for (align, row) in [(1, 12), (8, 16), (64, 64)] {
        let mut image = rgb(ImageFormat::ARGB, align);
        let mut i420 = vec![1];
        let conversions = HwRamDecoderImage { frame: &nv12 }.to_fmt(&mut image, &mut i420, false, None);
        assert!(conversions.result.is_ok());
        assert_eq!((image.w, image.h, image.raw.len()), (3, 2, 2 * row));
        assert_eq!(image.raw[..4], [9, 9, 9, 0]);
        assert_eq!(conversions.steps[0].target_strides, vec![row as i32]);
        assert_eq!(i420, vec![1]);
    }
}

#[test]
fn one_conversion_brings_planes_to_pixels() {
    for (pixfmt, fmt, function, rows) in [
        (AVPixelFormat::AV_PIX_FMT_NV12, ImageFormat::ARGB, YuvFunction::NV12ToARGB, 2),
        (AVPixelFormat::AV_PIX_FMT_NV12, ImageFormat::ABGR, YuvFunction::NV12ToABGR, 2),
        (AVPixelFormat::AV_PIX_FMT_YUV420P, ImageFormat::ARGB, YuvFunction::I420ToARGB, 3),
        (AVPixelFormat::AV_PIX_FMT_YUV420P, ImageFormat::ABGR, YuvFunction::I420ToABGR, 3),
    ] {
        let decoded = frame(pixfmt);
        let mut image = rgb(fmt, 1);
        let conversions = HwRamDecoderImage { frame: &decoded }.to_fmt(&mut image, &mut vec![], false, None);
        assert!(conversions.result.is_ok());
        assert_eq!(conversions.steps.len(), 1);
        let step = &conversions.steps[0];
        assert_eq!(step.function, function);
        assert_eq!(step.source_strides, vec![4, 4, 2][..rows].to_vec());
        assert_eq!((step.width, step.height), (3, 2));
    }
}

#[test]
fn two_conversions_go_over_three_planes() {
    let nv12 = frame(AVPixelFormat::AV_PIX_FMT_NV12);
    let mut i420 = vec![];
    let conversions = HwRamDecoderImage { frame: &nv12 }.to_fmt(
        &mut rgb(ImageFormat::ABGR, 1),
        &mut i420,
        true,
        Some(&layout()),
    );
    assert!(conversions.result.is_ok());
    assert_eq!(i420, vec![0; 24]);
    assert_eq!(conversions.steps[0].function, YuvFunction::NV12ToI420);
    assert_eq!(conversions.steps[0].target_strides, vec![8, 4, 4]);
    assert_eq!(conversions.steps[1].function, YuvFunction::I420ToABGR);
    assert_eq!(conversions.steps[1].source_strides, vec![8, 4, 4]);
    assert_eq!(conversions.steps[1].target_strides, vec![12]);
    assert_eq!(conversions.planes, Some((0, 16, 20)));
}

#[test]
fn planes_begin_within_their_buffer() {
    assert!(layout().is_sound());
    assert_eq!(layout().plane_starts(), (0, 16, 20));
    let unsound = |change: fn(&mut I420Layout)| {
        let mut layout = layout();
        change(&mut layout);
        !layout.is_sound()
    };
    assert!(unsound(|l| l.offset.truncate(1)));
    assert!(unsound(|l| l.linesize.truncate(2)));
    assert!(unsound(|l| l.offset[1] = 25));
    assert!(unsound(|l| l.offset[0] = -1));
    assert!(unsound(|l| l.length = -1));
}

#[test]
fn conversions_that_do_not_exist_are_errors() {
    let nv12 = frame(AVPixelFormat::AV_PIX_FMT_NV12);
    let image = HwRamDecoderImage { frame: &nv12 };
    let failed = image.to_fmt(&mut rgb(ImageFormat::Raw, 1), &mut vec![], false, None);
    assert!(failed.steps.is_empty());
    assert_eq!(failed.result.unwrap_err().message, "unsupported format: AV_PIX_FMT_NV12 -> Raw");
    let failed = image.to_fmt(&mut rgb(ImageFormat::Raw, 1), &mut vec![], true, Some(&layout()));
    assert_eq!(failed.steps.len(), 1);
    assert_eq!(failed.result.unwrap_err().message, "unsupported format: AV_PIX_FMT_NV12 -> Raw");
    let failed = image.to_fmt(&mut rgb(ImageFormat::ARGB, 1), &mut vec![], true, None);
    assert_eq!(failed.result.unwrap_err().message, "failed to get i420 linesize, offset, length");
    let yuv = frame(AVPixelFormat::AV_PIX_FMT_YUV420P);
    let failed =
        HwRamDecoderImage { frame: &yuv }.to_fmt(&mut rgb(ImageFormat::Raw, 1), &mut vec![], true, None);
    assert_eq!(failed.result.unwrap_err().message, "unsupported format: AV_PIX_FMT_YUV420P -> Raw");
}

fn downloaded() -> DecodeFrame {
    DecodeFrame {
        pixfmt: AVPixelFormat::AV_PIX_FMT_NV12,
        width: 2,
        height: 2,
        data: vec![vec![16; 4], vec![128; 2]],
        linesize: vec![2, 2],
        key: false,
    }
}

#[test]
fn converts_downloaded_nv12_to_rgba() {
    let downloaded = DecodeFrame {
        pixfmt: AVPixelFormat::AV_PIX_FMT_NV12,
        width: 2,
        height: 2,
        data: vec![vec![16; 4], vec![128; 2]],
        linesize: vec![2, 2],
        key: false,
    };

    let target = downloaded_nv12_to_rgba(&downloaded).unwrap();
    assert_eq!((target.width, target.height), (2, 2));
    assert_eq!(target.len, 16);
    assert_eq!(target.conversion.function, YuvFunction::NV12ToABGR);
}

#[test]
fn tells_what_can_be_converted() {
    let mut frame = downloaded();
    let can = |frame: &DecodeFrame, fmt, align, over| {
        HwRamDecoderImage { frame }.can_convert(fmt, align, over, None)
    };
    assert!(can(&frame, ImageFormat::ARGB, 1, false));
    assert!(!can(&frame, ImageFormat::ARGB, 0, false));
    assert!(!can(&frame, ImageFormat::ARGB, usize::MAX, false));
    frame.data.truncate(1);
    assert!(!can(&frame, ImageFormat::ARGB, 1, false));
    // No plane is read where the conversion is refused.
    assert!(can(&frame, ImageFormat::Raw, 1, false));
    assert!(can(&frame, ImageFormat::ARGB, 1, true));
    frame.width = -1;
    assert!(!can(&frame, ImageFormat::Raw, 1, false));
}

#[test]
fn plans_the_conversion_of_a_downloaded_frame() {
    let target = downloaded_nv12_to_rgba(&downloaded()).unwrap();
    assert_eq!((target.width, target.height, target.len), (2, 2, 16));
    assert_eq!(target.conversion.function, YuvFunction::NV12ToABGR);
    assert_eq!(target.conversion.source_strides, vec![2, 2]);
    assert_eq!(target.conversion.target_strides, vec![8]);
    assert_eq!((target.conversion.width, target.conversion.height), (2, 2));
}

fn refusal(change: fn(&mut DecodeFrame)) -> String {
    let mut frame = downloaded();
    change(&mut frame);
    downloaded_nv12_to_rgba(&frame).unwrap_err().message
}

#[test]
fn refuses_frames_that_are_not_two_planes_with_a_size() {
    assert_eq!(
        refusal(|f| f.width = -2),
        "invalid downloaded dmabuf frame: format=AV_PIX_FMT_NV12, size=-2x2, planes=2"
    );
    assert_eq!(
        refusal(|f| f.pixfmt = AVPixelFormat::AV_PIX_FMT_YUV420P),
        "invalid downloaded dmabuf frame: format=AV_PIX_FMT_YUV420P, size=2x2, planes=2"
    );
    assert_eq!(
        refusal(|f| f.data.truncate(1)),
        "invalid downloaded dmabuf frame: format=AV_PIX_FMT_NV12, size=2x2, planes=1"
    );
    assert!(refusal(|f| f.height = 0).starts_with("invalid downloaded dmabuf frame"));
    assert!(refusal(|f| f.linesize.truncate(1)).starts_with("invalid downloaded dmabuf frame"));
}

#[test]
fn refuses_planes_that_are_too_small() {
    assert_eq!(refusal(|f| f.linesize[0] = -1), "invalid downloaded dmabuf Y stride");
    assert_eq!(refusal(|f| f.linesize[1] = -1), "invalid downloaded dmabuf UV stride");
    let small = "downloaded dmabuf plane is smaller than its declared layout";
    assert_eq!(refusal(|f| f.linesize[0] = 1), small);
    assert_eq!(refusal(|f| f.linesize[1] = 1), small);
    assert_eq!(refusal(|f| f.data[0].truncate(3)), small);
    assert_eq!(refusal(|f| f.data[1].truncate(1)), small);
    assert_eq!(refusal(|f| f.height = 3), small);
}

#[test]
fn downloads_of_exported_frames_may_fail() {
    let encoder = HwDmabufEncoder {
        format: DataFormat::H264,
        pixfmt: AVPixelFormat::AV_PIX_FMT_NV12,
        bitrate: 1,
        config: HwDmabufEncoderConfig {
            name: String::new(),
            mc_name: None,
            device_path: None,
            width: 2,
            height: 2,
            quality: 0,
            keyframe_interval: None,
        },
    };
    assert_eq!(encoder.download_rgba(&Ok(downloaded())).unwrap().len, 16);
    let err = encoder.download_rgba(&Err("-1".to_string())).unwrap_err();
    assert_eq!(err.message, "Failed to download dmabuf: -1");
}
