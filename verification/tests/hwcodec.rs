use scrap::error::ErrorKind;
use scrap::hwcodec::{
    is_h264, named_format, probe_context, to_message, yuvfmt, AVPixelFormat, DecodeFrame,
    EncodeFrame, EncoderCfg, HwDmabufEncoder, HwDmabufEncoderConfig, HwRamDecoder, HwRamEncoder,
    HwRamEncoderConfig, Machine, Quality, RateControl, VideoFrame, DEFAULT_FPS, DEFAULT_GOP,
};
use scrap::hwconfig::{
    CodecFormat, CodecInfo, CodecInfos, ConfigState, DataFormat, HwCodecConfig, MediaCodecInfo,
    MediaCodecInfos,
};
use scrap::pixel::Pixfmt;
use scrap::wire::{DmabufFrame, DmabufPlane};

const MACHINE: Machine = Machine { android: false, align: 0, thread_count: 4 };

fn ram(name: &str) -> HwRamEncoderConfig {
    HwRamEncoderConfig {
        name: name.to_string(),
        mc_name: Some("c2.hw".to_string()),
        width: 1920,
        height: 1080,
        quality: 1.0f32.to_bits(),
        keyframe_interval: None,
    }
}

fn dma(name: &str) -> HwDmabufEncoderConfig {
    HwDmabufEncoderConfig {
        name: name.to_string(),
        mc_name: None,
        device_path: None,
        width: 640,
        height: 480,
        quality: 1.0f32.to_bits(),
        keyframe_interval: Some(240),
    }
}

fn ram_encoder(name: &str, format: DataFormat) -> HwRamEncoder {
    let config = ram(name);
    let plan = HwRamEncoder::plan(&config, 2500, None, MACHINE);
    HwRamEncoder::new(config, plan, format, true).unwrap()
}

fn dma_encoder(name: &str) -> HwDmabufEncoder {
    let config = dma(name);
    let plan = HwDmabufEncoder::plan(&config, 900, None, MACHINE);
    HwDmabufEncoder::new(config, plan, DataFormat::H265, true).unwrap()
}

fn media(min: u32, max: u32) -> MediaCodecInfos {
    let codec = |name: &str, is_encoder: bool, min: u32, max: u32| MediaCodecInfo {
        name: name.to_string(),
        is_encoder,
        hw: None,
        mime_type: String::new(),
        nv12: false,
        min_bitrate: min,
        max_bitrate: max,
        max_width: 0,
        max_height: 0,
    };
    MediaCodecInfos {
        w: 0,
        h: 0,
        codecs: vec![codec("c2.hw", false, 1, 2), codec("c2.hw", true, min, max), codec("c2.hw", true, 7, 8)],
    }
}

fn frame(data: u8, key: i32) -> EncodeFrame {
    EncodeFrame { data: vec![data], pts: 40, key }
}

fn info(name: &str, format: DataFormat, priority: i32) -> CodecInfo {
    CodecInfo { name: name.to_string(), mc_name: None, format, priority, hwdevice: 6 }
}

#[test]
fn encoders_take_their_own_configuration() {
    assert_eq!(HwRamEncoder::accept(EncoderCfg::HWRAM(ram("x"))).unwrap().name, "x");
    for cfg in [EncoderCfg::HWDMABUF(dma("x")), EncoderCfg::Other] {
        let err = HwRamEncoder::accept(cfg).unwrap_err();
        assert_eq!((err.kind, err.message.as_str()), (ErrorKind::Other, "encoder type mismatch"));
    }
    assert_eq!(HwDmabufEncoder::accept(EncoderCfg::HWDMABUF(dma("y"))).unwrap().name, "y");
    let err = HwDmabufEncoder::accept(EncoderCfg::HWRAM(ram("x"))).unwrap_err();
    assert_eq!(err.message, "encoder type mismatch");
}

#[test]
fn plans_what_an_encoder_is_opened_with() {
    let plan = HwRamEncoder::plan(&ram("h264_nvenc"), 2500, None, MACHINE);
    let c = plan.context;
    assert_eq!(plan.bitrate, 2500);
    assert_eq!((c.name.as_str(), c.mc_name.as_deref()), ("h264_nvenc", Some("c2.hw")));
    assert_eq!((c.width, c.height, c.align, c.kbs), (1920, 1080, 0, 2500));
    assert_eq!((c.fps, c.gop, c.q, c.thread_count), (DEFAULT_FPS, DEFAULT_GOP, -1, 4));
    assert_eq!((c.pixfmt, c.quality, c.rc), (AVPixelFormat::AV_PIX_FMT_NV12, Quality::Quality_Default, RateControl::RC_CBR));
    let plan = HwDmabufEncoder::plan(&dma("hevc_vaapi"), 900, None, MACHINE);
    assert_eq!((plan.context.gop, plan.context.width, plan.context.kbs), (240, 640, 900));
}

#[test]
fn encoders_of_the_system_vary_their_rate_within_bounds() {
    let android = Machine { android: true, ..MACHINE };
    let infos = media(1000, 2000);
    let config = ram("h264_mediacodec");
    let plan = HwRamEncoder::plan(&config, 2500, Some(&infos), android);
    assert_eq!((plan.bitrate, plan.context.kbs, plan.context.rc), (2000, 2000, RateControl::RC_VBR));
    assert_eq!(HwRamEncoder::check_bitrate_range(&config, 500, Some(&infos)), 1000);
    assert_eq!(HwRamEncoder::check_bitrate_range(&config, 1500, Some(&infos)), 1500);
    assert_eq!(HwRamEncoder::check_bitrate_range(&config, 5, Some(&media(9, 9))), 5);
    assert_eq!(HwRamEncoder::check_bitrate_range(&ram("h264_nvenc"), 5, Some(&infos)), 5);
    let mut unlisted = ram("h264_mediacodec");
    unlisted.mc_name = Some("other".to_string());
    assert_eq!(HwRamEncoder::check_bitrate_range(&unlisted, 5, Some(&infos)), 5);
    unlisted.mc_name = None;
    assert_eq!(HwRamEncoder::check_bitrate_range(&unlisted, 5, Some(&infos)), 5);
    let plan = HwRamEncoder::plan(&ram("h264_nvenc"), 5, Some(&infos), android);
    assert_eq!(plan.context.rc, RateControl::RC_CBR);
}

#[test]
fn encoders_that_do_not_open_are_errors() {
    let config = ram("x");
    let plan = HwRamEncoder::plan(&config, 1, None, MACHINE);
    let err = HwRamEncoder::new(config, plan, DataFormat::H264, false).unwrap_err();
    assert_eq!(err.message, "Failed to create encoder");
    let config = dma("hevc_vaapi");
    let plan = HwDmabufEncoder::plan(&config, 1, None, MACHINE);
    let err = HwDmabufEncoder::new(config, plan, DataFormat::H265, false).unwrap_err();
    assert_eq!(err.message, "Failed to create dmabuf encoder: codec=hevc_vaapi, size=640x480");
    assert_eq!(named_format("x", Some(DataFormat::H265)).unwrap(), DataFormat::H265);
    assert_eq!(named_format("x", None).unwrap_err().message, "failed to get format from name:x");
}

#[test]
fn frames_become_messages_of_their_format() {
    match to_message(DataFormat::H264, vec![frame(1, 1), frame(2, 0), frame(3, 2)]).unwrap() {
        VideoFrame::H264s(sent) => {
            assert_eq!(sent.len(), 3);
            assert_eq!((sent[0].data.clone(), sent[0].pts, sent[0].key), (vec![1], 40, true));
            assert!(!sent[1].key && !sent[2].key);
        }
        _ => panic!(),
    }
    assert!(matches!(to_message(DataFormat::H265, vec![frame(1, 1)]), Ok(VideoFrame::H265s(_))));
    let err = to_message(DataFormat::VP9, vec![frame(1, 1)]).unwrap_err();
    assert_eq!((err.kind, err.message.as_str()), (ErrorKind::Other, "unsupported format: VP9"));
    let err = to_message(DataFormat::VP9, vec![]).unwrap_err();
    assert_eq!((err.kind, err.message.as_str()), (ErrorKind::WouldBlock, "operation would block"));
}

#[test]
fn failures_of_encoders_are_reported() {
    let encoder = ram_encoder("x", DataFormat::H264);
    assert!(matches!(encoder.encode_to_message(Ok(vec![frame(1, 1)])), Ok(VideoFrame::H264s(_))));
    let err = encoder.encode_to_message(Err("-5".to_string())).unwrap_err();
    assert_eq!((err.kind, err.message.as_str()), (ErrorKind::Other, "Failed to encode"));
    assert_eq!(err.cause.unwrap().message, "hardware encoder failed: -5");
    let err = HwRamEncoder::encode(Err("-5".to_string())).unwrap_err();
    assert_eq!(err.message, "hardware encoder failed: -5");
    assert_eq!(HwRamEncoder::encode(Ok(vec![frame(1, 1)])).unwrap().len(), 1);
    let encoder = dma_encoder("hevc_vaapi");
    let outcome = encoder.encode_to_message(Err("-7".to_string()));
    assert!(!outcome.encoded);
    assert_eq!(outcome.message.unwrap_err().message, "Failed to encode dmabuf: -7");
    let outcome = encoder.encode_to_message(Ok(vec![]));
    assert!(outcome.encoded);
    assert_eq!(outcome.message.unwrap_err().kind, ErrorKind::WouldBlock);
}

#[test]
fn exported_frames_are_given_in_the_encoders_size() {
    let encoder = dma_encoder("hevc_vaapi");
    let given = encoder.encoder_frame(&DmabufFrame {
        width: 1920,
        height: 1080,
        fourcc: 3,
        modifier: 4,
        planes: vec![DmabufPlane { fd: 9, stride: 10, offset: 11 }],
    });
    assert_eq!((given.width, given.height), (1920, 1080));
    assert_eq!((given.encode_width, given.encode_height), (640, 480));
    assert_eq!((given.fourcc, given.modifier), (3, 4));
    assert_eq!((given.planes[0].fd, given.planes[0].stride, given.planes[0].offset), (9, 10, 11));
}

#[test]
fn layouts_of_pictures() {
    let layout = yuvfmt(AVPixelFormat::AV_PIX_FMT_NV12, 64, 32, &vec![64, 64], &vec![2048]);
    assert_eq!((layout.pixfmt, layout.w, layout.h, layout.u, layout.v), (Pixfmt::NV12, 64, 32, 2048, 0));
    assert_eq!(layout.stride, vec![64, 64]);
    let layout = yuvfmt(AVPixelFormat::AV_PIX_FMT_YUV420P, 64, 32, &vec![64, 32, 32], &vec![2048, 2560]);
    assert_eq!((layout.pixfmt, layout.u, layout.v), (Pixfmt::I420, 2048, 2560));
}

#[test]
fn quality_changes_the_bitrate() {
    let mut encoder = ram_encoder("h264_nvenc", DataFormat::H264);
    assert_eq!(encoder.set_quality(2.0f32.to_bits(), 5000, None), Some(5000));
    assert_eq!((encoder.bitrate(), encoder.config.quality), (5000, 2.0f32.to_bits()));
    assert_eq!(encoder.set_quality(0, 0, None), None);
    assert_eq!((encoder.bitrate(), encoder.config.quality), (5000, 0));
    let mut encoder = dma_encoder("hevc_vaapi");
    assert_eq!(encoder.bitrate(), 900);
    assert_eq!(encoder.set_quality(7, 1200, None), Some(1200));
    assert_eq!((encoder.bitrate(), encoder.config.quality), (1200, 7));
}

#[test]
fn names_tell_what_encoders_can_do() {
    for (name, quality, latency) in [
        ("h264_nvenc", true, true),
        ("hevc_vaapi", false, true),
        ("h264_mediacodec", true, false),
        ("h264_videotoolbox", true, false),
    ] {
        let encoder = ram_encoder(name, DataFormat::H264);
        assert_eq!((encoder.support_changing_quality(), encoder.latency_free()), (quality, latency), "{name}");
        assert!(encoder.is_hardware());
    }
    let encoder = dma_encoder("hevc_vaapi");
    assert!(!encoder.support_changing_quality() && !encoder.latency_free());
    assert!(encoder.is_hardware() && encoder.is_dmabuf());
    assert!(dma_encoder("hevc_nvenc").latency_free());
    assert!(is_h264("h264_vaapi") && !is_h264("hevc_vaapi"));
}

#[test]
fn codecs_that_fail_are_struck_off() {
    let mut state: ConfigState<(), ()> = ConfigState::new();
    let config = || HwCodecConfig {
        vram_encode: vec![],
        vram_decode: vec![],
        signature: 1,
        ram_encode: vec![info("e", DataFormat::H264, 0)],
        ram_decode: vec![info("d", DataFormat::H264, 0)],
    };
    HwCodecConfig::set(&mut state, Some(config()));
    ram_encoder("x", DataFormat::H264).disable(&mut state);
    let left = HwCodecConfig::get_set_value(&state).unwrap();
    assert_eq!((left.ram_encode.len(), left.ram_decode.len()), (0, 1));
    HwCodecConfig::set(&mut state, Some(config()));
    assert!(HwRamDecoder::new(&mut state, info("d", DataFormat::H264, 0), true).is_ok());
    assert_eq!(HwCodecConfig::get_set_value(&state).unwrap().ram_decode.len(), 1);
    let err = HwRamDecoder::new(&mut state, info("d", DataFormat::H264, 0), false).unwrap_err();
    assert_eq!(err.message, "Failed to create decoder");
    let left = HwCodecConfig::get_set_value(&state).unwrap();
    assert_eq!((left.ram_encode.len(), left.ram_decode.len()), (1, 0));
}

#[test]
fn picks_codecs_by_format() {
    let infos = |h264: Option<&str>, h265: Option<&str>| CodecInfos {
        h264: h264.map(|n| info(n, DataFormat::H264, 0)),
        h265: h265.map(|n| info(n, DataFormat::H265, 0)),
    };
    let name = |found: Option<CodecInfo>| found.map(|c| c.name);
    assert_eq!(name(HwRamEncoder::try_get(CodecFormat::H264, infos(Some("a"), Some("b")))), Some("a".to_string()));
    assert_eq!(name(HwRamEncoder::try_get(CodecFormat::H265, infos(Some("a"), None))), None);
    assert_eq!(name(HwRamEncoder::try_get(CodecFormat::VP9, infos(Some("a"), Some("b")))), None);
    let soft = || infos(Some("s4"), Some("s5"));
    assert_eq!(name(HwRamDecoder::try_get(CodecFormat::H264, soft(), None)), Some("s4".to_string()));
    let best = Some(infos(Some("h4"), None));
    assert_eq!(name(HwRamDecoder::try_get(CodecFormat::H264, soft(), best)), Some("h4".to_string()));
    let best = Some(infos(Some("h4"), None));
    assert_eq!(name(HwRamDecoder::try_get(CodecFormat::H265, soft(), best)), Some("s5".to_string()));
    assert_eq!(name(HwRamDecoder::try_get(CodecFormat::AV1, soft(), None)), None);
}

#[test]
fn picks_the_first_vaapi_encoder_of_least_priority() {
    let encoders = vec![
        info("h264_vaapi_a", DataFormat::H264, 3),
        info("h264_nvenc", DataFormat::H264, 0),
        info("hevc_vaapi", DataFormat::H265, 0),
        info("h264_vaapi_b", DataFormat::H264, 1),
        info("h264_vaapi_c", DataFormat::H264, 1),
    ];
    assert_eq!(HwRamEncoder::try_get_vaapi(CodecFormat::H264, &encoders).unwrap().name, "h264_vaapi_b");
    assert_eq!(HwRamEncoder::try_get_vaapi(CodecFormat::H265, &encoders).unwrap().name, "hevc_vaapi");
    assert!(HwRamEncoder::try_get_vaapi(CodecFormat::AV1, &encoders).is_none());
    assert!(HwRamEncoder::try_get_vaapi(CodecFormat::H264, &vec![]).is_none());
}

#[test]
fn plans_what_a_decoder_is_opened_with() {
    let context = HwRamDecoder::plan(CodecFormat::H264, &Some(info("d", DataFormat::H264, 0)), 8).unwrap();
    assert_eq!((context.name.as_str(), context.device_type, context.thread_count), ("d", 6, 8));
    let err = HwRamDecoder::plan(CodecFormat::AV1, &None, 8).unwrap_err();
    assert_eq!(err.message, "unsupported format: AV1");
    let err = HwRamDecoder::plan(CodecFormat::Unknown, &None, 8).unwrap_err();
    assert_eq!(err.message, "unsupported format: Unknown");
}

#[test]
fn decoded_frames_are_handed_on() {
    let decoder = HwRamDecoder { info: info("d", DataFormat::H264, 0) };
    let frames = vec![DecodeFrame {
        pixfmt: AVPixelFormat::AV_PIX_FMT_NV12,
        width: 2,
        height: 2,
        data: vec![],
        linesize: vec![],
        key: true,
    }];
    let images = decoder.decode(Ok(&frames)).unwrap();
    assert_eq!(images.len(), 1);
    assert!(images[0].frame.key);
    assert_eq!(decoder.decode(Err("-3".to_string())).unwrap_err().message, "-3");
}

#[test]
fn codecs_are_tried_with_a_small_picture() {
    let c = probe_context(0);
    assert_eq!((c.name.as_str(), c.width, c.height, c.kbs, c.thread_count), ("", 1280, 720, 1000, 4));
    assert_eq!((c.fps, c.gop, c.q, c.rc), (30, i32::MAX, -1, RateControl::RC_CBR));
}

#[test]
fn configurations_can_be_copied() {
    let config = ram_encoder("x", DataFormat::H264).config;
    assert_eq!(format!("{:?}", config.clone()), format!("{config:?}"));
    let config = dma_encoder("hevc_vaapi").config;
    assert_eq!(format!("{:?}", config.clone()), format!("{config:?}"));
}
