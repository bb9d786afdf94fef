use scrap::helper::CommandPart;
use scrap::hwconfig::{
    best_codec, check_available_hwcodec, check_command, check_step, get_mime_type, must_wait,
    start_check_process, CheckState, CheckStep, CodecInfo, ConfigSource, ConfigState, DataFormat, HwCodecConfig, MediaCodecInfo,
    MediaCodecInfos, AV_HWDEVICE_TYPE_NONE,
};

fn codec(name: &str) -> CodecInfo {
    CodecInfo {
        name: name.to_string(),
        mc_name: None,
        format: DataFormat::H264,
        priority: 1,
        hwdevice: 3,
    }
}

type Config = HwCodecConfig<char, u8>;
type State = ConfigState<char, u8>;

fn config(signature: u64) -> Config {
    check_available_hwcodec(
        vec![codec("e")],
        vec![codec("d1"), codec("d2")],
        vec!['a', 'b'],
        vec![7],
        signature,
    )
}

fn media(name: &str, mime: &str, width: usize, height: usize) -> MediaCodecInfo {
    MediaCodecInfo {
        name: name.to_string(),
        is_encoder: true,
        hw: Some(true),
        mime_type: mime.to_string(),
        nv12: true,
        min_bitrate: 0,
        max_bitrate: 0,
        max_width: width,
        max_height: height,
    }
}

#[test]
fn what_was_set_is_handed_over() {
    let mut state = State::new();
    assert!(!HwCodecConfig::already_set(&state));
    assert!(HwCodecConfig::get_set_value(&state).is_none());
    HwCodecConfig::set(&mut state, Some(config(5)));
    assert!(HwCodecConfig::already_set(&state));
    let value = HwCodecConfig::get_set_value(&state).unwrap();
    assert_eq!((value.signature, value.ram_decode.len()), (5, 2));
    assert_eq!((value.vram_encode, value.vram_decode), (vec!['a', 'b'], vec![7]));
    let value = HwCodecConfig::get(&mut state, ConfigSource::HandedOver);
    assert_eq!(value.ram_encode[0].name, "e");
    assert_eq!(value.ram_encode[0].hwdevice, 3);
}

#[test]
fn an_unreadable_list_is_empty() {
    let mut state = State::new();
    HwCodecConfig::set(&mut state, None);
    let value = HwCodecConfig::get_set_value(&state).unwrap();
    assert_eq!((value.signature, value.ram_encode.len(), value.ram_decode.len()), (0, 0, 0));
    assert!(HwCodecConfig::already_set(&state));
}

#[test]
fn nothing_handed_over_is_an_empty_list() {
    let mut state = State::new();
    let value = HwCodecConfig::get(&mut state, ConfigSource::HandedOver);
    assert!(value.ram_encode.is_empty());
    assert!(state.config.is_none());
    assert!(HwCodecConfig::get(&mut state, ConfigSource::Ios).ram_decode.is_empty());
}

#[test]
fn a_stored_list_is_kept_on_its_machine() {
    let mut state = State::new();
    let stored = ConfigSource::Stored { config: config(9), signature: 8 };
    assert!(HwCodecConfig::get(&mut state, stored).ram_encode.is_empty());
    assert!(state.config.is_none());
    let stored = ConfigSource::Stored { config: config(9), signature: 9 };
    assert_eq!(HwCodecConfig::get(&mut state, stored).ram_encode.len(), 1);
    assert!(state.config.is_some());
    assert!(!HwCodecConfig::already_set(&state));
    assert!(HwCodecConfig::get_set_value(&state).is_none());
    let other = ConfigSource::Stored { config: config(1), signature: 1 };
    assert_eq!(HwCodecConfig::get(&mut state, other).signature, 9);
}

#[test]
fn clearing_is_selective() {
    let mut state = State::new();
    HwCodecConfig::clear(&mut state, false, true);
    assert!(state.config.is_none());
    HwCodecConfig::set(&mut state, Some(config(5)));
    HwCodecConfig::clear(&mut state, true, true);
    let value = HwCodecConfig::get_set_value(&state).unwrap();
    assert_eq!((value.ram_encode.len(), value.vram_encode.len()), (1, 0));
    assert_eq!(value.vram_decode, vec![7]);
    HwCodecConfig::clear(&mut state, true, false);
    let value = HwCodecConfig::get_set_value(&state).unwrap();
    assert_eq!((value.ram_decode.len(), value.vram_decode.len()), (2, 0));
    HwCodecConfig::clear(&mut state, false, true);
    let value = HwCodecConfig::get_set_value(&state).unwrap();
    assert_eq!((value.ram_encode.len(), value.ram_decode.len(), value.signature), (0, 2, 5));
    HwCodecConfig::clear(&mut state, false, false);
    let value = HwCodecConfig::get_set_value(&state).unwrap();
    assert_eq!((value.ram_encode.len(), value.ram_decode.len()), (0, 0));
}

#[test]
fn the_first_codec_that_takes_the_screen_is_used() {
    let infos = MediaCodecInfos {
        w: 1080,
        h: 1920,
        codecs: vec![
            media("wide", "video/avc", 4096, 1080),
            media("fit", "video/avc", 1920, 1920),
            media("huge", "video/avc", 8192, 8192),
            media("hevc", "video/hevc", 100, 100),
        ],
    };
    assert_eq!(best_codec(&infos, DataFormat::H264), Some(1));
    assert_eq!(best_codec(&infos, DataFormat::H265), Some(3));
    assert_eq!(best_codec(&infos, DataFormat::AV1), None);
    let mut state = State::new();
    let config = HwCodecConfig::get(&mut state, ConfigSource::Android(Some(&infos)));
    let names: Vec<(&str, Option<&str>)> =
        config.ram_encode.iter().map(|c| (c.name.as_str(), c.mc_name.as_deref())).collect();
    assert_eq!(names, vec![("h264_mediacodec", Some("fit")), ("hevc_mediacodec", Some("hevc"))]);
    assert_eq!(config.ram_encode[1].format, DataFormat::H265);
    assert_eq!(config.ram_encode[0].hwdevice, AV_HWDEVICE_TYPE_NONE);
    assert_eq!(config.ram_encode[0].priority, 0);
    assert!(config.ram_decode.is_empty());
}

#[test]
fn else_the_first_largest_codec_is_used() {
    let infos = MediaCodecInfos {
        w: 9000,
        h: 1,
        codecs: vec![
            media("small", "video/avc", 10, 10),
            media("large", "video/avc", 20, 10),
            media("as_large", "video/avc", 10, 20),
        ],
    };
    assert_eq!(best_codec(&infos, DataFormat::H264), Some(1));
    let mut state = State::new();
    let config = HwCodecConfig::get(&mut state, ConfigSource::Android(Some(&infos)));
    assert_eq!(config.ram_encode.len(), 1);
    assert_eq!(config.ram_encode[0].mc_name.as_deref(), Some("large"));
}

#[test]
fn only_hardware_encoders_of_nv12_count() {
    let with = |change: fn(&mut MediaCodecInfo)| {
        let mut one = media("x", "video/avc", 10, 10);
        change(&mut one);
        MediaCodecInfos { w: 1, h: 1, codecs: vec![one] }
    };
    assert_eq!(best_codec(&with(|_| {}), DataFormat::H264), Some(0));
    assert_eq!(best_codec(&with(|c| c.is_encoder = false), DataFormat::H264), None);
    assert_eq!(best_codec(&with(|c| c.nv12 = false), DataFormat::H264), None);
    assert_eq!(best_codec(&with(|c| c.hw = Some(false)), DataFormat::H264), None);
    assert_eq!(best_codec(&with(|c| c.hw = None), DataFormat::H264), None);
    let mut empty = with(|c| c.max_width = 0);
    empty.w = 5;
    assert_eq!(best_codec(&empty, DataFormat::H264), None);
    let mut state = State::new();
    assert!(HwCodecConfig::get(&mut state, ConfigSource::Android(None)).ram_encode.is_empty());
}

#[test]
fn formats_have_mime_types() {
    assert_eq!(get_mime_type(DataFormat::VP8), "video/x-vnd.on2.vp8");
    assert_eq!(get_mime_type(DataFormat::VP9), "video/x-vnd.on2.vp9");
    assert_eq!(get_mime_type(DataFormat::AV1), "video/av01");
    assert_eq!(get_mime_type(DataFormat::H264), "video/avc");
    assert_eq!(get_mime_type(DataFormat::H265), "video/hevc");
}

#[test]
fn a_check_runs_while_nothing_was_handed_over() {
    let mut state = State::new();
    let mut checks = CheckState::new();
    assert!(!start_check_process(&mut checks, false, &state));
    assert!(!checks.started);
    HwCodecConfig::set(&mut state, None);
    assert!(!start_check_process(&mut checks, true, &state));
    assert!(!checks.started);
}

#[test]
fn at_most_one_check_is_started() {
    let state = State::new();
    let mut checks = CheckState::new();
    assert!(start_check_process(&mut checks, true, &state));
    assert!(checks.started);
    for _ in 0..3 {
        assert!(!start_check_process(&mut checks, true, &state));
    }
}

#[test]
fn a_check_process_is_this_program_with_one_argument() {
    let command = check_command();
    assert_eq!(command.len(), 2);
    assert!(matches!(&command[0], CommandPart::Executable));
    assert!(matches!(&command[1], CommandPart::Text(text) if text == "--check-hwcodec-config"));
}

#[test]
fn a_check_process_is_given_half_a_minute() {
    for looks in 0..30 {
        assert_eq!(check_step(looks, false), CheckStep::LookAfter(1000));
    }
    assert_eq!(check_step(30, false), CheckStep::Kill(30));
    assert_eq!(check_step(1, true), CheckStep::Kill(30));
    assert_eq!(check_step(0, true), CheckStep::LookAfter(1000));
    assert!(must_wait(Some(false)));
    assert!(!must_wait(Some(true)));
    assert!(!must_wait(None));
}
