//! Encoding and decoding with hardware codecs: what an encoder is set up with,
//! what its output becomes, and how decoded frames are converted.

use crate::error::{Error, ErrorKind, Failure};
use crate::hwconfig;
use crate::hwconfig::{
    CodecFormat, CodecInfo, CodecInfos, ConfigState, DataFormat, HwCodecConfig, MediaCodecInfos,
};
use crate::pixel::Pixfmt;
use crate::text;
use crate::wire::{DmabufFrame, DmabufPlane};
use vstd::prelude::*;

verus! {

#[allow(non_camel_case_types)]
#[derive(Clone, Copy, PartialEq, Eq, Debug, Structural)]
pub enum AVPixelFormat {
    AV_PIX_FMT_NV12,
    AV_PIX_FMT_YUV420P,
}

#[allow(non_camel_case_types)]
#[derive(Clone, Copy, PartialEq, Eq, Debug, Structural)]
pub enum RateControl {
    RC_CBR,
    RC_VBR,
}

#[allow(non_camel_case_types)]
#[derive(Clone, Copy, PartialEq, Eq, Debug, Structural)]
pub enum Quality {
    Quality_Default,
    Quality_High,
    Quality_Medium,
    Quality_Low,
}

pub const DEFAULT_FPS: i32 = 30;

pub const DEFAULT_GOP: i32 = i32::MAX;

/// How an encoder that works on main memory is configured. The quality is the
/// bit pattern of a ratio.
#[derive(Debug)]
pub struct HwRamEncoderConfig {
    pub name: String,
    pub mc_name: Option<String>,
    pub width: usize,
    pub height: usize,
    pub quality: u32,
    pub keyframe_interval: Option<usize>,
}

impl Clone for HwRamEncoderConfig {
    fn clone(&self) -> (copy: HwRamEncoderConfig)
        ensures
            copy == *self,
    {
        HwRamEncoderConfig {
            name: self.name.clone(),
            mc_name: copy_name(&self.mc_name),
            width: self.width,
            height: self.height,
            quality: self.quality,
            keyframe_interval: self.keyframe_interval,
        }
    }
}

/// How an encoder that works on exported buffers is configured. The quality is
/// the bit pattern of a ratio.
#[derive(Debug)]
pub struct HwDmabufEncoderConfig {
    pub name: String,
    pub mc_name: Option<String>,
    pub device_path: Option<String>,
    pub width: usize,
    pub height: usize,
    pub quality: u32,
    pub keyframe_interval: Option<usize>,
}

impl Clone for HwDmabufEncoderConfig {
    fn clone(&self) -> (copy: HwDmabufEncoderConfig)
        ensures
            copy == *self,
    {
        HwDmabufEncoderConfig {
            name: self.name.clone(),
            mc_name: copy_name(&self.mc_name),
            device_path: copy_name(&self.device_path),
            width: self.width,
            height: self.height,
            quality: self.quality,
            keyframe_interval: self.keyframe_interval,
        }
    }
}

/// The configuration of some encoder.
#[derive(Debug)]
pub enum EncoderCfg {
    HWRAM(HwRamEncoderConfig),
    HWDMABUF(HwDmabufEncoderConfig),
    Other,
}

/// What an encoder is opened with.
#[derive(Debug)]
pub struct EncodeContext {
    pub name: String,
    pub mc_name: Option<String>,
    pub width: i32,
    pub height: i32,
    pub pixfmt: AVPixelFormat,
    pub align: i32,
    pub kbs: i32,
    pub fps: i32,
    pub gop: i32,
    pub quality: Quality,
    pub rc: RateControl,
    pub q: i32,
    pub thread_count: i32,
}

pub open spec fn is_mediacodec(name: Seq<char>) -> bool {
    text::contains(name, "mediacodec"@)
}

pub open spec fn same_name(name: String, wanted: Option<String>) -> bool {
    wanted matches Some(wanted) && wanted@ == name@
}

/// The codec at `i` is the first encoder of that name that the system lists.
pub open spec fn is_listed(infos: MediaCodecInfos, mc_name: Option<String>, i: int) -> bool {
    &&& 0 <= i < infos.codecs@.len()
    &&& infos.codecs@[i].is_encoder && same_name(infos.codecs@[i].name, mc_name)
    &&& forall|j: int|
        0 <= j < i ==> !((#[trigger] infos.codecs@[j]).is_encoder && same_name(
            infos.codecs@[j].name,
            mc_name,
        ))
}

/// A number within the bounds, if they are any.
pub open spec fn within(bitrate: u32, min: u32, max: u32) -> u32 {
    if max <= min {
        bitrate
    } else if bitrate > max {
        max
    } else if bitrate < min {
        min
    } else {
        bitrate
    }
}

/// `checked` is the bitrate that the encoder takes instead of `bitrate`: only an
/// encoder that the system lists has bounds.
pub open spec fn is_checked_bitrate(
    name: Seq<char>,
    mc_name: Option<String>,
    media: Option<&MediaCodecInfos>,
    bitrate: u32,
    checked: u32,
) -> bool {
    match media {
        Some(infos) => if is_mediacodec(name) && exists|i: int| is_listed(*infos, mc_name, i) {
            exists|i: int| #[trigger]
                is_listed(*infos, mc_name, i) && checked == within(
                    bitrate,
                    infos.codecs@[i].min_bitrate,
                    infos.codecs@[i].max_bitrate,
                )
        } else {
            checked == bitrate
        },
        None => checked == bitrate,
    }
}

fn is_wanted(name: &String, wanted: &Option<String>) -> (same: bool)
    ensures
        same == same_name(*name, *wanted),
{
    match wanted {
        Some(wanted) => text::equals(wanted.as_str(), name.as_str()),
        None => false,
    }
}

fn check_range(
    name: &str,
    mc_name: &Option<String>,
    media: Option<&MediaCodecInfos>,
    bitrate: u32,
) -> (checked: u32)
    ensures
        is_checked_bitrate(name@, *mc_name, media, bitrate, checked),
{
    if let Some(infos) = media {
        if text::has(name, "mediacodec") {
            for i in 0..infos.codecs.len()
                invariant
                    is_mediacodec(name@),
                    media == Some(infos),
                    forall|j: int|
                        0 <= j < i ==> !((#[trigger] infos.codecs@[j]).is_encoder && same_name(
                            infos.codecs@[j].name,
                            *mc_name,
                        )),
            {
                let codec = &infos.codecs[i];
                if codec.is_encoder && is_wanted(&codec.name, mc_name) {
                    assert(is_listed(*infos, *mc_name, i as int));
                    if codec.max_bitrate > codec.min_bitrate {
                        if bitrate > codec.max_bitrate {
                            return codec.max_bitrate;
                        }
                        if bitrate < codec.min_bitrate {
                            return codec.min_bitrate;
                        }
                    }
                    return bitrate;
                }
            }
        }
    }
    bitrate
}

/// The rate control of an encoder: one that the system lists varies its rate.
pub open spec fn rate_control(name: Seq<char>, android: bool) -> RateControl {
    if android && is_mediacodec(name) {
        RateControl::RC_VBR
    } else {
        RateControl::RC_CBR
    }
}

pub open spec fn keyframe_gop(keyframe_interval: Option<usize>) -> i32 {
    match keyframe_interval {
        Some(interval) => interval as i32,
        None => DEFAULT_GOP,
    }
}

/// What an encoder of that name and size is opened with.
pub open spec fn is_context_for(
    context: EncodeContext,
    name: String,
    mc_name: Option<String>,
    width: usize,
    height: usize,
    keyframe_interval: Option<usize>,
    bitrate: u32,
    machine: Machine,
) -> bool {
    &&& context.name == name
    &&& context.mc_name == mc_name
    &&& context.width == width as i32
    &&& context.height == height as i32
    &&& context.pixfmt == AVPixelFormat::AV_PIX_FMT_NV12
    &&& context.align == machine.align
    &&& context.kbs == bitrate as i32
    &&& context.fps == DEFAULT_FPS
    &&& context.gop == keyframe_gop(keyframe_interval)
    &&& context.quality == Quality::Quality_Default
    &&& context.rc == rate_control(name@, machine.android)
    &&& context.q == -1
    &&& context.thread_count == machine.thread_count
}

/// What the machine has to say about encoders: whether the system is Android,
/// how rows are aligned, and how many threads a codec gets.
#[derive(Clone, Copy, PartialEq, Eq, Debug, Structural)]
pub struct Machine {
    pub android: bool,
    pub align: i32,
    pub thread_count: i32,
}

fn copy_name(name: &Option<String>) -> (copy: Option<String>)
    ensures
        copy == *name,
{
    match name {
        Some(name) => Some(name.clone()),
        None => None,
    }
}

fn encode_context(
    name: &String,
    mc_name: &Option<String>,
    width: usize,
    height: usize,
    keyframe_interval: Option<usize>,
    bitrate: u32,
    machine: Machine,
) -> (context: EncodeContext)
    ensures
        is_context_for(
            context,
            *name,
            *mc_name,
            width,
            height,
            keyframe_interval,
            bitrate,
            machine,
        ),
{
    let gop: i32 = match keyframe_interval {
        Some(interval) => interval as i32,
        None => DEFAULT_GOP,
    };
    let rc = if machine.android && text::has(name.as_str(), "mediacodec") {
        RateControl::RC_VBR
    } else {
        RateControl::RC_CBR
    };
    EncodeContext {
        name: name.clone(),
        mc_name: copy_name(mc_name),
        width: width as i32,
        height: height as i32,
        pixfmt: AVPixelFormat::AV_PIX_FMT_NV12,
        align: machine.align,
        kbs: bitrate as i32,
        fps: DEFAULT_FPS,
        gop,
        quality: Quality::Quality_Default,
        rc,
        q: -1,
        thread_count: machine.thread_count,
    }
}

/// What encoders are tried with to see whether they work.
pub fn probe_context(align: i32) -> (context: EncodeContext)
    ensures
        context.name@ == ""@,
        context.mc_name is None,
        context.width == 1280,
        context.height == 720,
        context.pixfmt == AVPixelFormat::AV_PIX_FMT_NV12,
        context.align == align,
        context.kbs == 1000,
        context.fps == DEFAULT_FPS,
        context.gop == DEFAULT_GOP,
        context.quality == Quality::Quality_Default,
        context.rc == RateControl::RC_CBR,
        context.q == -1,
        context.thread_count == 4,
{
    EncodeContext {
        name: "".to_owned(),
        mc_name: None,
        width: 1280,
        height: 720,
        pixfmt: AVPixelFormat::AV_PIX_FMT_NV12,
        align,
        kbs: 1000,
        fps: DEFAULT_FPS,
        gop: DEFAULT_GOP,
        quality: Quality::Quality_Default,
        rc: RateControl::RC_CBR,
        q: -1,
        thread_count: 4,
    }
}

/// A frame that an encoder made.
#[derive(Debug)]
pub struct EncodeFrame {
    pub data: Vec<u8>,
    pub pts: i64,
    pub key: i32,
}

/// A frame of a message.
#[derive(Debug)]
pub struct EncodedVideoFrame {
    pub data: Vec<u8>,
    pub pts: i64,
    pub key: bool,
}

/// A message with frames of one format.
#[derive(Debug)]
pub enum VideoFrame {
    H264s(Vec<EncodedVideoFrame>),
    H265s(Vec<EncodedVideoFrame>),
}

pub open spec fn as_sent(frame: EncodeFrame) -> EncodedVideoFrame {
    EncodedVideoFrame { data: frame.data, pts: frame.pts, key: frame.key == 1 }
}

pub open spec fn all_as_sent(frames: Seq<EncodeFrame>) -> Seq<EncodedVideoFrame> {
    frames.map_values(|frame: EncodeFrame| as_sent(frame))
}

pub open spec fn format_text(format: DataFormat) -> Seq<char> {
    match format {
        DataFormat::H264 => "H264"@,
        DataFormat::H265 => "H265"@,
        DataFormat::VP8 => "VP8"@,
        DataFormat::VP9 => "VP9"@,
        DataFormat::AV1 => "AV1"@,
    }
}

fn format_name(format: DataFormat) -> (name: &'static str)
    ensures
        name@ == format_text(format),
{
    match format {
        DataFormat::H264 => "H264",
        DataFormat::H265 => "H265",
        DataFormat::VP8 => "VP8",
        DataFormat::VP9 => "VP9",
        DataFormat::AV1 => "AV1",
    }
}

/// `message` is what the frames of an encoder of that format become. Without a
/// frame there is nothing to send yet, whatever the format.
pub open spec fn is_message_of(
    message: Result<VideoFrame, Error>,
    format: DataFormat,
    frames: Seq<EncodeFrame>,
) -> bool {
    if frames.len() == 0 {
        message matches Err(err) && err@ == Failure::of(ErrorKind::WouldBlock, "operation would block"@)
    } else {
        match format {
            DataFormat::H264 => message matches Ok(VideoFrame::H264s(sent)) && sent@ == all_as_sent(
                frames,
            ),
            DataFormat::H265 => message matches Ok(VideoFrame::H265s(sent)) && sent@ == all_as_sent(
                frames,
            ),
            _ => message matches Err(err) && err@ == Failure::of(
                ErrorKind::Other,
                "unsupported format: "@ + format_text(format),
            ),
        }
    }
}

/// Makes a message of an encoder's frames.
pub fn to_message(format: DataFormat, frames: Vec<EncodeFrame>) -> (message: Result<
    VideoFrame,
    Error,
>)
    ensures
        is_message_of(message, format, frames@),
{
    if frames.len() == 0 {
        return Err(Error::would_block());
    }
    let mut rest = frames;
    let mut sent: Vec<EncodedVideoFrame> = Vec::new();
    assert(frames@.skip(0) =~= frames@);
    while rest.len() > 0
        invariant
            sent@.len() <= frames@.len(),
            rest@ == frames@.skip(sent@.len() as int),
            sent@ == all_as_sent(frames@).take(sent@.len() as int),
        decreases rest.len(),
    {
        let ghost done = sent@.len() as int;
        let frame = rest.remove(0);
        sent.push(EncodedVideoFrame { data: frame.data, pts: frame.pts, key: frame.key == 1 });
        proof {
            assert(rest@ =~= frames@.skip(done + 1));
            assert(sent@ =~= all_as_sent(frames@).take(done + 1));
        }
    }
    assert(sent@ =~= all_as_sent(frames@));
    match format {
        DataFormat::H264 => Ok(VideoFrame::H264s(sent)),
        DataFormat::H265 => Ok(VideoFrame::H265s(sent)),
        _ => Err(
            Error::with_detail(ErrorKind::Other, "unsupported format: ", format_name(format)),
        ),
    }
}

/// The layout in which an encoder takes pictures.
#[derive(Debug)]
pub struct EncodeYuvFormat {
    pub pixfmt: Pixfmt,
    pub w: usize,
    pub h: usize,
    pub stride: Vec<usize>,
    pub u: usize,
    pub v: usize,
}

/// `layout` is the layout of an encoder with those rows and offsets.
pub open spec fn is_yuv_layout(
    layout: EncodeYuvFormat,
    pixfmt: AVPixelFormat,
    width: i32,
    height: i32,
    linesize: Seq<i32>,
    offset: Seq<i32>,
) -> bool {
    &&& layout.w == width as usize
    &&& layout.h == height as usize
    &&& layout.stride@ == linesize.map_values(|row: i32| row as usize)
    &&& layout.u == offset[0] as usize
    &&& match pixfmt {
        AVPixelFormat::AV_PIX_FMT_NV12 => layout.pixfmt == Pixfmt::NV12 && layout.v == 0,
        AVPixelFormat::AV_PIX_FMT_YUV420P => layout.pixfmt == Pixfmt::I420 && layout.v
            == offset[1] as usize,
    }
}

/// Describes the layout in which an opened encoder takes pictures.
pub fn yuvfmt(
    pixfmt: AVPixelFormat,
    width: i32,
    height: i32,
    linesize: &Vec<i32>,
    offset: &Vec<i32>,
) -> (layout: EncodeYuvFormat)
    requires
        offset@.len() >= 1,
        pixfmt == AVPixelFormat::AV_PIX_FMT_YUV420P ==> offset@.len() >= 2,
    ensures
        is_yuv_layout(layout, pixfmt, width, height, linesize@, offset@),
{
    let mut stride: Vec<usize> = Vec::new();
    let ghost rows = linesize@.map_values(|row: i32| row as usize);
    for i in 0..linesize.len()
        invariant
            rows == linesize@.map_values(|row: i32| row as usize),
            stride@ == rows.take(i as int),
    {
        stride.push(linesize[i] as usize);
        assert(stride@ =~= rows.take(i + 1));
    }
    assert(stride@ =~= rows);
    let (yuv, v): (Pixfmt, usize) = match pixfmt {
        AVPixelFormat::AV_PIX_FMT_NV12 => (Pixfmt::NV12, 0),
        AVPixelFormat::AV_PIX_FMT_YUV420P => (Pixfmt::I420, offset[1] as usize),
    };
    EncodeYuvFormat {
        pixfmt: yuv,
        w: width as usize,
        h: height as usize,
        stride,
        u: offset[0] as usize,
        v,
    }
}

/// The quality of an encoder of that name can be changed while it runs.
pub open spec fn has_changing_quality(name: Seq<char>) -> bool {
    !text::contains(name, "vaapi"@)
}

/// An encoder of that name on main memory gives each frame back at once.
pub open spec fn is_latency_free(name: Seq<char>) -> bool {
    !(is_mediacodec(name) || text::contains(name, "videotoolbox"@))
}

/// An encoder that is about to be opened.
#[derive(Debug)]
pub struct EncoderPlan {
    pub context: EncodeContext,
    pub bitrate: u32,
}

/// An encoder that works on pictures in main memory.
#[derive(Debug)]
pub struct HwRamEncoder {
    pub format: DataFormat,
    pub pixfmt: AVPixelFormat,
    pub bitrate: u32,
    pub config: HwRamEncoderConfig,
}

pub open spec fn type_mismatch() -> Failure {
    Failure::of(ErrorKind::Other, "encoder type mismatch"@)
}

pub open spec fn encoder_failure(reason: Seq<char>) -> Failure {
    Failure::of(ErrorKind::Other, "hardware encoder failed: "@ + reason)
}

pub open spec fn unknown_format(name: Seq<char>) -> Failure {
    Failure::of(ErrorKind::Other, "failed to get format from name:"@ + name)
}

/// The format that an encoder's name stands for, if it stands for any.
pub fn named_format(name: &str, format: Option<DataFormat>) -> (named: Result<DataFormat, Error>)
    ensures
        match named {
            Ok(named) => format == Some(named),
            Err(err) => format is None && err@ == unknown_format(name@),
        },
{
    match format {
        Some(format) => Ok(format),
        None => Err(Error::with_detail(ErrorKind::Other, "failed to get format from name:", name)),
    }
}

/// Whether the name is that of an H.264 encoder.
pub fn is_h264(name: &str) -> (yes: bool)
    ensures
        yes == text::contains(name@, "h264"@),
{
    text::has(name, "h264")
}

/// A plan to open an encoder on main memory for that configuration, for which that bitrate was
/// calculated.
pub open spec fn is_ram_plan(
    plan: EncoderPlan,
    config: HwRamEncoderConfig,
    calculated: u32,
    media: Option<&MediaCodecInfos>,
    machine: Machine,
) -> bool {
    &&& is_checked_bitrate(config.name@, config.mc_name, media, calculated, plan.bitrate)
    &&& is_context_for(
        plan.context,
        config.name,
        config.mc_name,
        config.width,
        config.height,
        config.keyframe_interval,
        plan.bitrate,
        machine,
    )
}

/// An encoder on main memory that was opened by the plan for its configuration, with the format
/// that its name stands for, has the checked bitrate, takes NV12 and makes that
/// format.
pub proof fn law_ram_encoder_follows_its_configuration(
    config: HwRamEncoderConfig,
    calculated: u32,
    media: Option<&MediaCodecInfos>,
    machine: Machine,
    plan: EncoderPlan,
    named: DataFormat,
    encoder: HwRamEncoder,
)
    requires
        is_ram_plan(plan, config, calculated, media, machine),
        encoder == (HwRamEncoder {
            format: named,
            pixfmt: plan.context.pixfmt,
            bitrate: plan.bitrate,
            config,
        }),
    ensures
        is_checked_bitrate(config.name@, config.mc_name, media, calculated, encoder.bitrate),
        encoder.pixfmt == AVPixelFormat::AV_PIX_FMT_NV12,
        encoder.format == named,
        encoder.config == config,
{
}

impl HwRamEncoder {
    /// Takes a configuration of this kind of encoder.
    pub fn accept(cfg: EncoderCfg) -> (config: Result<HwRamEncoderConfig, Error>)
        ensures
            match cfg {
                EncoderCfg::HWRAM(wanted) => config == Ok::<HwRamEncoderConfig, Error>(wanted),
                _ => config matches Err(err) && err@ == type_mismatch(),
            },
    {
        match cfg {
            EncoderCfg::HWRAM(config) => Ok(config),
            _ => Err(Error::other("encoder type mismatch")),
        }
    }

    /// The bitrate that the encoder takes instead of a calculated one.
    pub fn check_bitrate_range(
        config: &HwRamEncoderConfig,
        bitrate: u32,
        media: Option<&MediaCodecInfos>,
    ) -> (checked: u32)
        ensures
            is_checked_bitrate(config.name@, config.mc_name, media, bitrate, checked),
    {
        check_range(config.name.as_str(), &config.mc_name, media, bitrate)
    }

    /// Plans to open an encoder, for which that bitrate was calculated.
    pub fn plan(
        config: &HwRamEncoderConfig,
        calculated: u32,
        media: Option<&MediaCodecInfos>,
        machine: Machine,
    ) -> (plan: EncoderPlan)
        ensures
            is_ram_plan(plan, *config, calculated, media, machine),
    {
        let bitrate: u32 = Self::check_bitrate_range(config, calculated, media);
        let context = encode_context(
            &config.name,
            &config.mc_name,
            config.width,
            config.height,
            config.keyframe_interval,
            bitrate,
            machine,
        );
        EncoderPlan { context, bitrate }
    }

    /// The encoder, if it could be opened.
    pub fn new(
        config: HwRamEncoderConfig,
        plan: EncoderPlan,
        format: DataFormat,
        opened: bool,
    ) -> (encoder: Result<HwRamEncoder, Error>)
        ensures
            match encoder {
                Ok(encoder) => opened && encoder == (HwRamEncoder {
                    format,
                    pixfmt: plan.context.pixfmt,
                    bitrate: plan.bitrate,
                    config,
                }),
                Err(err) => !opened && err@ == Failure::of(ErrorKind::Other, "Failed to create encoder"@),
            },
    {
        if !opened {
            return Err(Error::other("Failed to create encoder"));
        }
        Ok(
            HwRamEncoder {
                format,
                pixfmt: plan.context.pixfmt,
                bitrate: plan.bitrate,
                config,
            },
        )
    }

    /// The frames that the encoder made, or why it failed.
    pub fn encode(encoded: Result<Vec<EncodeFrame>, String>) -> (frames: Result<
        Vec<EncodeFrame>,
        Error,
    >)
        ensures
            match encoded {
                Ok(made) => frames == Ok::<Vec<EncodeFrame>, Error>(made),
                Err(reason) => frames matches Err(err) && err@ == encoder_failure(reason@),
            },
    {
        match encoded {
            Ok(frames) => Ok(frames),
            Err(reason) => Err(
                Error::with_detail(
                    ErrorKind::Other,
                    "hardware encoder failed: ",
                    reason.as_str(),
                ),
            ),
        }
    }

    /// The message is made of what the encoder made, or says why it failed.
    pub open spec fn is_encoded(
        self,
        message: Result<VideoFrame, Error>,
        encoded: Result<Vec<EncodeFrame>, String>,
    ) -> bool {
        match encoded {
            Ok(frames) => is_message_of(message, self.format, frames@),
            Err(reason) => message matches Err(err) && exists|cause: Error|
                #![trigger cause@]
                cause@ == encoder_failure(reason@) && err@ == Failure::caused(
                    "Failed to encode"@,
                    cause,
                ),
        }
    }

    /// The message that what the encoder made becomes.
    pub fn encode_to_message(&self, encoded: Result<Vec<EncodeFrame>, String>) -> (message: Result<
        VideoFrame,
        Error,
    >)
        ensures
            self.is_encoded(message, encoded),
    {
        match Self::encode(encoded) {
            Ok(frames) => to_message(self.format, frames),
            Err(err) => Err(err.context("Failed to encode")),
        }
    }

    /// The quality is changed, and the bitrate with it where one was calculated.
    pub open spec fn is_quality_set(
        self,
        after: Self,
        ratio: u32,
        calculated: u32,
        media: Option<&MediaCodecInfos>,
        bitrate: Option<i32>,
    ) -> bool {
        &&& after.format == self.format
        &&& after.pixfmt == self.pixfmt
        &&& after.config == (HwRamEncoderConfig { quality: ratio, ..self.config })
        &&& if calculated > 0 {
            &&& is_checked_bitrate(
                self.config.name@,
                self.config.mc_name,
                media,
                calculated,
                after.bitrate,
            )
            &&& bitrate == Some(after.bitrate as i32)
        } else {
            bitrate is None && after.bitrate == self.bitrate
        }
    }

    /// Changes the quality; gives the bitrate to set, if that for the new quality,
    /// `calculated`, is one.
    pub fn set_quality(
        &mut self,
        ratio: u32,
        calculated: u32,
        media: Option<&MediaCodecInfos>,
    ) -> (bitrate: Option<i32>)
        ensures
            old(self).is_quality_set(*final(self), ratio, calculated, media, bitrate),
    {
        let mut set: Option<i32> = None;
        if calculated > 0 {
            let bitrate: u32 = Self::check_bitrate_range(&self.config, calculated, media);
            self.bitrate = bitrate;
            set = Some(bitrate as i32);
        }
        self.config.quality = ratio;
        set
    }

    pub fn bitrate(&self) -> (bitrate: u32)
        ensures
            bitrate == self.bitrate,
    {
        self.bitrate
    }

    pub fn support_changing_quality(&self) -> (supported: bool)
        ensures
            supported == has_changing_quality(self.config.name@),
    {
        !text::has(self.config.name.as_str(), "vaapi")
    }

    pub fn latency_free(&self) -> (free: bool)
        ensures
            free == is_latency_free(self.config.name@),
    {
        !text::has(self.config.name.as_str(), "mediacodec") && !text::has(
            self.config.name.as_str(),
            "videotoolbox",
        )
    }

    pub fn is_hardware(&self) -> (hardware: bool)
        ensures
            hardware,
    {
        true
    }

    /// An encoder that fails takes all encoders off the list.
    pub fn disable<E, D>(&self, state: &mut ConfigState<E, D>)
        ensures
            final(state).set_by_ipc == old(state).set_by_ipc,
            final(state).codecs() == hwconfig::cleared(old(state).codecs(), false, true),
    {
        HwCodecConfig::clear(state, false, true);
    }

    /// The encoder to use for a format, out of the best ones.
    pub fn try_get(format: CodecFormat, best: CodecInfos) -> (info: Option<CodecInfo>)
        ensures
            info == pick(format, best),
    {
        match format {
            CodecFormat::H264 => best.h264,
            CodecFormat::H265 => best.h265,
            _ => None,
        }
    }

    /// The first of the VAAPI encoders of a format with the least priority value.
    pub fn try_get_vaapi(format: CodecFormat, encoders: &Vec<CodecInfo>) -> (info: Option<
        CodecInfo,
    >)
        ensures
            match info {
                Some(info) => exists|i: int| #[trigger]
                    is_best_vaapi(encoders@, format, i) && encoders@[i] == info,
                None => forall|i: int|
                    0 <= i < encoders@.len() ==> !is_vaapi(#[trigger] encoders@[i], format),
            },
    {
        let wanted = match format {
            CodecFormat::H264 => DataFormat::H264,
            CodecFormat::H265 => DataFormat::H265,
            _ => {
                return None;
            },
        };
        let mut best: Option<usize> = None;
        for i in 0..encoders.len()
            invariant
                data_format(format) == Some(wanted),
                match best {
                    Some(best) => best < i && is_best_vaapi(
                        encoders@.take(i as int),
                        format,
                        best as int,
                    ),
                    None => forall|j: int|
                        0 <= j < i ==> !is_vaapi(#[trigger] encoders@[j], format),
                },
        {
            let encoder = &encoders[i];
            let ghost head = encoders@.take(i as int);
            let ghost next = encoders@.take(i + 1);
            assert(forall|j: int| 0 <= j < i ==> head[j] == encoders@[j]);
            assert(forall|j: int| 0 <= j <= i ==> next[j] == encoders@[j]);
            if encoder.format == wanted && text::has(encoder.name.as_str(), "vaapi") {
                let lower = match best {
                    Some(best) => encoder.priority < encoders[best].priority,
                    None => true,
                };
                if lower {
                    best = Some(i);
                }
            }
            assert(best matches Some(best) ==> is_best_vaapi(next, format, best as int)) by {
                if let Some(at) = best {
                    assert forall|j: int|
                        0 <= j < next.len() && is_vaapi(#[trigger] next[j], format) implies next[at as int].priority
                        <= next[j].priority && (j < at ==> next[at as int].priority
                        < next[j].priority) by {
                        if j < i {
                            assert(is_vaapi(head[j], format));
                        }
                    }
                }
            }
        }
        assert(encoders@.take(encoders@.len() as int) =~= encoders@);
        match best {
            Some(best) => Some(encoders[best].clone()),
            None => None,
        }
    }
}

pub open spec fn data_format(format: CodecFormat) -> Option<DataFormat> {
    match format {
        CodecFormat::H264 => Some(DataFormat::H264),
        CodecFormat::H265 => Some(DataFormat::H265),
        _ => None,
    }
}

pub open spec fn pick(format: CodecFormat, infos: CodecInfos) -> Option<CodecInfo> {
    match format {
        CodecFormat::H264 => infos.h264,
        CodecFormat::H265 => infos.h265,
        _ => None,
    }
}

pub open spec fn is_vaapi(encoder: CodecInfo, format: CodecFormat) -> bool {
    data_format(format) == Some(encoder.format) && text::contains(encoder.name@, "vaapi"@)
}

/// No VAAPI encoder of the format has a lower priority value than the one at
/// `i`, and none before it has as low a one.
pub open spec fn is_best_vaapi(encoders: Seq<CodecInfo>, format: CodecFormat, i: int) -> bool {
    &&& 0 <= i < encoders.len()
    &&& is_vaapi(encoders[i], format)
    &&& forall|j: int|
        0 <= j < encoders.len() && is_vaapi(#[trigger] encoders[j], format) ==> encoders[i].priority
            <= encoders[j].priority && (j < i ==> encoders[i].priority < encoders[j].priority)
}

/// An encoder that works on exported buffers.
#[derive(Debug)]
pub struct HwDmabufEncoder {
    pub format: DataFormat,
    pub pixfmt: AVPixelFormat,
    pub bitrate: u32,
    pub config: HwDmabufEncoderConfig,
}

/// An exported frame with the size that it is encoded in; file descriptors are
/// plain numbers here.
#[derive(Debug)]
pub struct EncoderDmabufFrame {
    pub width: usize,
    pub height: usize,
    pub encode_width: usize,
    pub encode_height: usize,
    pub fourcc: u32,
    pub modifier: u64,
    pub planes: Vec<DmabufPlane<i32>>,
}

/// The outcome of encoding an exported frame, and whether the encoder did its
/// work: only enough failures in a row count against exported frames.
#[derive(Debug)]
pub struct DmabufMessage {
    pub encoded: bool,
    pub message: Result<VideoFrame, Error>,
}

/// A plan to open an encoder of exported buffers for that configuration, for which that bitrate was
/// calculated.
pub open spec fn is_dmabuf_plan(
    plan: EncoderPlan,
    config: HwDmabufEncoderConfig,
    calculated: u32,
    media: Option<&MediaCodecInfos>,
    machine: Machine,
) -> bool {
    &&& is_checked_bitrate(config.name@, config.mc_name, media, calculated, plan.bitrate)
    &&& is_context_for(
        plan.context,
        config.name,
        config.mc_name,
        config.width,
        config.height,
        config.keyframe_interval,
        plan.bitrate,
        machine,
    )
}

/// An encoder of exported buffers that was opened by the plan for its configuration, with the format
/// that its name stands for, has the checked bitrate, takes NV12 and makes that
/// format.
pub proof fn law_dmabuf_encoder_follows_its_configuration(
    config: HwDmabufEncoderConfig,
    calculated: u32,
    media: Option<&MediaCodecInfos>,
    machine: Machine,
    plan: EncoderPlan,
    named: DataFormat,
    encoder: HwDmabufEncoder,
)
    requires
        is_dmabuf_plan(plan, config, calculated, media, machine),
        encoder == (HwDmabufEncoder {
            format: named,
            pixfmt: plan.context.pixfmt,
            bitrate: plan.bitrate,
            config,
        }),
    ensures
        is_checked_bitrate(config.name@, config.mc_name, media, calculated, encoder.bitrate),
        encoder.pixfmt == AVPixelFormat::AV_PIX_FMT_NV12,
        encoder.format == named,
        encoder.config == config,
{
}

impl HwDmabufEncoder {
    /// Takes a configuration of this kind of encoder.
    pub fn accept(cfg: EncoderCfg) -> (config: Result<HwDmabufEncoderConfig, Error>)
        ensures
            match cfg {
                EncoderCfg::HWDMABUF(wanted) => config == Ok::<HwDmabufEncoderConfig, Error>(
                    wanted,
                ),
                _ => config matches Err(err) && err@ == type_mismatch(),
            },
    {
        match cfg {
            EncoderCfg::HWDMABUF(config) => Ok(config),
            _ => Err(Error::other("encoder type mismatch")),
        }
    }

    /// Plans to open an encoder, for which that bitrate was calculated.
    pub fn plan(
        config: &HwDmabufEncoderConfig,
        calculated: u32,
        media: Option<&MediaCodecInfos>,
        machine: Machine,
    ) -> (plan: EncoderPlan)
        ensures
            is_dmabuf_plan(plan, *config, calculated, media, machine),
    {
        let bitrate: u32 = check_range(config.name.as_str(), &config.mc_name, media, calculated);
        let context = encode_context(
            &config.name,
            &config.mc_name,
            config.width,
            config.height,
            config.keyframe_interval,
            bitrate,
            machine,
        );
        EncoderPlan { context, bitrate }
    }

    /// The encoder, if it could be opened.
    pub fn new(
        config: HwDmabufEncoderConfig,
        plan: EncoderPlan,
        format: DataFormat,
        opened: bool,
    ) -> (encoder: Result<HwDmabufEncoder, Error>)
        ensures
            match encoder {
                Ok(encoder) => opened && encoder == (HwDmabufEncoder {
                    format,
                    pixfmt: plan.context.pixfmt,
                    bitrate: plan.bitrate,
                    config,
                }),
                Err(err) => !opened && err@ == Failure::of(
                    ErrorKind::Other,
                    "Failed to create dmabuf encoder: codec="@ + config.name@ + ", size="@
                        + text::decimal(config.width as nat) + "x"@ + text::decimal(
                        config.height as nat,
                    ),
                ),
            },
    {
        if !opened {
            let width = text::write_decimal(config.width as u64);
            let height = text::write_decimal(config.height as u64);
            let codec = text::join4(
                "Failed to create dmabuf encoder: codec=",
                config.name.as_str(),
                ", size=",
                width.as_str(),
            );
            let message = text::join3(codec.as_str(), "x", height.as_str());
            return Err(Error::with_message(ErrorKind::Other, message));
        }
        Ok(
            HwDmabufEncoder {
                format,
                pixfmt: plan.context.pixfmt,
                bitrate: plan.bitrate,
                config,
            },
        )
    }

    /// The encoder is given the frame, and the size to encode it in.
    pub open spec fn is_given(self, given: EncoderDmabufFrame, frame: DmabufFrame<i32>) -> bool {
        &&& given.width == frame.width
        &&& given.height == frame.height
        &&& given.encode_width == self.config.width
        &&& given.encode_height == self.config.height
        &&& given.fourcc == frame.fourcc
        &&& given.modifier == frame.modifier
        &&& given.planes@ == frame.planes@
    }

    /// What the encoder is given to encode or to download.
    pub fn encoder_frame(&self, frame: &DmabufFrame<i32>) -> (given: EncoderDmabufFrame)
        ensures
            self.is_given(given, *frame),
    {
        let mut planes: Vec<DmabufPlane<i32>> = Vec::new();
        for i in 0..frame.planes.len()
            invariant
                planes@ == frame.planes@.take(i as int),
        {
            let plane = &frame.planes[i];
            planes.push(DmabufPlane { fd: plane.fd, stride: plane.stride, offset: plane.offset });
            assert(planes@ =~= frame.planes@.take(i + 1));
        }
        assert(planes@ =~= frame.planes@);
        EncoderDmabufFrame {
            width: frame.width,
            height: frame.height,
            encode_width: self.config.width,
            encode_height: self.config.height,
            fourcc: frame.fourcc,
            modifier: frame.modifier,
            planes,
        }
    }

    /// The message is made of what the encoder made, or says why it failed.
    pub open spec fn is_encoded(
        self,
        outcome: DmabufMessage,
        encoded: Result<Vec<EncodeFrame>, String>,
    ) -> bool {
        &&& outcome.encoded == encoded is Ok
        &&& match encoded {
            Ok(frames) => is_message_of(outcome.message, self.format, frames@),
            Err(reason) => outcome.message matches Err(err) && err@ == Failure::of(
                ErrorKind::Other,
                "Failed to encode dmabuf: "@ + reason@,
            ),
        }
    }

    /// The message that what the encoder made becomes.
    pub fn encode_to_message(&self, encoded: Result<Vec<EncodeFrame>, String>) -> (outcome:
        DmabufMessage)
        ensures
            self.is_encoded(outcome, encoded),
    {
        match encoded {
            Ok(frames) => DmabufMessage {
                encoded: true,
                message: to_message(self.format, frames),
            },
            Err(reason) => DmabufMessage {
                encoded: false,
                message: Err(
                    Error::with_detail(
                        ErrorKind::Other,
                        "Failed to encode dmabuf: ",
                        reason.as_str(),
                    ),
                ),
            },
        }
    }

    /// The quality is changed, and the bitrate with it where one was calculated.
    pub open spec fn is_quality_set(
        self,
        after: Self,
        ratio: u32,
        calculated: u32,
        media: Option<&MediaCodecInfos>,
        bitrate: Option<i32>,
    ) -> bool {
        &&& after.format == self.format
        &&& after.pixfmt == self.pixfmt
        &&& after.config == (HwDmabufEncoderConfig { quality: ratio, ..self.config })
        &&& if calculated > 0 {
            &&& is_checked_bitrate(
                self.config.name@,
                self.config.mc_name,
                media,
                calculated,
                after.bitrate,
            )
            &&& bitrate == Some(after.bitrate as i32)
        } else {
            bitrate is None && after.bitrate == self.bitrate
        }
    }

    /// Changes the quality; gives the bitrate to set, if that for the new quality,
    /// `calculated`, is one.
    pub fn set_quality(
        &mut self,
        ratio: u32,
        calculated: u32,
        media: Option<&MediaCodecInfos>,
    ) -> (bitrate: Option<i32>)
        ensures
            old(self).is_quality_set(*final(self), ratio, calculated, media, bitrate),
    {
        let mut set: Option<i32> = None;
        if calculated > 0 {
            let bitrate: u32 = check_range(
                self.config.name.as_str(),
                &self.config.mc_name,
                media,
                calculated,
            );
            self.bitrate = bitrate;
            set = Some(bitrate as i32);
        }
        self.config.quality = ratio;
        set
    }

    pub fn bitrate(&self) -> (bitrate: u32)
        ensures
            bitrate == self.bitrate,
    {
        self.bitrate
    }

    pub fn support_changing_quality(&self) -> (supported: bool)
        ensures
            supported == has_changing_quality(self.config.name@),
    {
        !text::has(self.config.name.as_str(), "vaapi")
    }

    pub fn latency_free(&self) -> (free: bool)
        ensures
            free == (is_latency_free(self.config.name@) && !text::contains(
                self.config.name@,
                "vaapi"@,
            )),
    {
        !text::has(self.config.name.as_str(), "mediacodec") && !text::has(
            self.config.name.as_str(),
            "videotoolbox",
        ) && !text::has(self.config.name.as_str(), "vaapi")
    }

    pub fn is_hardware(&self) -> (hardware: bool)
        ensures
            hardware,
    {
        true
    }

    pub fn is_dmabuf(&self) -> (dmabuf: bool)
        ensures
            dmabuf,
    {
        true
    }
}

/// A decoder that works on main memory.
#[derive(Debug)]
pub struct HwRamDecoder {
    pub info: CodecInfo,
}

/// What a decoder is opened with.
#[derive(Debug)]
pub struct DecodeContext {
    pub name: String,
    pub device_type: i32,
    pub thread_count: i32,
}

pub open spec fn codec_text(format: CodecFormat) -> Seq<char> {
    match format {
        CodecFormat::Unknown => "Unknown"@,
        CodecFormat::VP8 => "VP8"@,
        CodecFormat::VP9 => "VP9"@,
        CodecFormat::AV1 => "AV1"@,
        CodecFormat::H264 => "H264"@,
        CodecFormat::H265 => "H265"@,
    }
}

fn codec_name(format: CodecFormat) -> (name: &'static str)
    ensures
        name@ == codec_text(format),
{
    match format {
        CodecFormat::Unknown => "Unknown",
        CodecFormat::VP8 => "VP8",
        CodecFormat::VP9 => "VP9",
        CodecFormat::AV1 => "AV1",
        CodecFormat::H264 => "H264",
        CodecFormat::H265 => "H265",
    }
}

/// The decoder to use: the best one where hardware codecs are wanted and there is
/// one of that format, else the one in software.
pub open spec fn decoder_for(
    format: CodecFormat,
    soft: CodecInfos,
    best: Option<CodecInfos>,
) -> Option<CodecInfo> {
    match best {
        Some(best) => match pick(format, best) {
            Some(info) => Some(info),
            None => pick(format, soft),
        },
        None => pick(format, soft),
    }
}

impl HwRamDecoder {
    /// The decoder to use for a format; `best` is given where hardware codecs are
    /// wanted.
    pub fn try_get(format: CodecFormat, soft: CodecInfos, best: Option<CodecInfos>) -> (info:
        Option<CodecInfo>)
        ensures
            info == decoder_for(format, soft, best),
    {
        let mut info: Option<CodecInfo> = match format {
            CodecFormat::H264 => soft.h264,
            CodecFormat::H265 => soft.h265,
            _ => None,
        };
        if let Some(best) = best {
            match format {
                CodecFormat::H264 => if let Some(v) = best.h264 {
                    info = Some(v);
                },
                CodecFormat::H265 => if let Some(v) = best.h265 {
                    info = Some(v);
                },
                _ => {},
            }
        }
        info
    }

    /// What the decoder to use is opened with.
    pub fn plan(format: CodecFormat, info: &Option<CodecInfo>, thread_count: i32) -> (context:
        Result<DecodeContext, Error>)
        ensures
            match context {
                Ok(context) => info matches Some(info) && context == (DecodeContext {
                    name: info.name,
                    device_type: info.hwdevice,
                    thread_count,
                }),
                Err(err) => info is None && err@ == Failure::of(
                    ErrorKind::Other,
                    "unsupported format: "@ + codec_text(format),
                ),
            },
    {
        match info {
            Some(info) => Ok(
                DecodeContext {
                    name: info.name.clone(),
                    device_type: info.hwdevice,
                    thread_count,
                },
            ),
            None => Err(
                Error::with_detail(ErrorKind::Other, "unsupported format: ", codec_name(format)),
            ),
        }
    }

    /// The decoder is there, or no decoder is listed any more.
    pub open spec fn is_new<E, D>(
        decoder: Result<HwRamDecoder, Error>,
        before: ConfigState<E, D>,
        after: ConfigState<E, D>,
        info: CodecInfo,
        opened: bool,
    ) -> bool {
        &&& after.set_by_ipc == before.set_by_ipc
        &&& match decoder {
            Ok(decoder) => opened && decoder.info == info && after.codecs() == before.codecs(),
            Err(err) => !opened && err@ == Failure::of(ErrorKind::Other, "Failed to create decoder"@)
                && after.codecs() == hwconfig::cleared(
                before.codecs(),
                false,
                false,
            ),
        }
    }

    /// The decoder, if it could be opened. One that cannot be opened takes all
    /// decoders off the list.
    pub fn new<E, D>(
        state: &mut ConfigState<E, D>,
        info: CodecInfo,
        opened: bool,
    ) -> (decoder: Result<
        HwRamDecoder,
        Error,
    >)
        ensures
            Self::is_new(decoder, *old(state), *final(state), info, opened),
    {
        if opened {
            Ok(HwRamDecoder { info })
        } else {
            HwCodecConfig::clear(state, false, false);
            Err(Error::other("Failed to create decoder"))
        }
    }

    /// The frames that the decoder made, to be converted.
    pub fn decode<'a>(&self, decoded: Result<&'a Vec<DecodeFrame>, String>) -> (images: Result<
        Vec<HwRamDecoderImage<'a>>,
        Error,
    >)
        ensures
            match decoded {
                Ok(frames) => images matches Ok(images) && images@.len() == frames@.len()
                    && forall|i: int|
                    0 <= i < frames@.len() ==> *(#[trigger] images@[i]).frame == frames@[i],
                Err(reason) => images matches Err(err) && err@ == Failure::of(ErrorKind::Other, reason@),
            },
    {
        match decoded {
            Ok(frames) => {
                let mut images: Vec<HwRamDecoderImage<'a>> = Vec::new();
                for i in 0..frames.len()
                    invariant
                        images@.len() == i,
                        forall|j: int| 0 <= j < i ==> *(#[trigger] images@[j]).frame == frames@[j],
                {
                    images.push(HwRamDecoderImage { frame: &frames[i] });
                }
                Ok(images)
            },
            Err(reason) => Err(Error::other(reason.as_str())),
        }
    }
}

/// A frame that a decoder made.
#[derive(Debug)]
pub struct DecodeFrame {
    pub pixfmt: AVPixelFormat,
    pub width: i32,
    pub height: i32,
    pub data: Vec<Vec<u8>>,
    pub linesize: Vec<i32>,
    pub key: bool,
}

/// A frame that a decoder made, to be converted.
#[derive(Debug)]
pub struct HwRamDecoderImage<'a> {
    pub frame: &'a DecodeFrame,
}

/// The bitrate of an encoder for which the system lists bounds lies within them.
pub proof fn law_checked_bitrate_is_within_bounds(
    name: Seq<char>,
    mc_name: Option<String>,
    infos: &MediaCodecInfos,
    bitrate: u32,
    checked: u32,
    i: int,
)
    requires
        is_checked_bitrate(name, mc_name, Some(infos), bitrate, checked),
        is_mediacodec(name),
        is_listed(*infos, mc_name, i),
        infos.codecs@[i].max_bitrate > infos.codecs@[i].min_bitrate,
    ensures
        infos.codecs@[i].min_bitrate <= checked <= infos.codecs@[i].max_bitrate,
{
    let k = choose|k: int| #[trigger]
        is_listed(*infos, mc_name, k) && checked == within(
            bitrate,
            infos.codecs@[k].min_bitrate,
            infos.codecs@[k].max_bitrate,
        );
    assert(k == i) by {
        if k < i {
            assert(infos.codecs@[k].is_encoder);
        }
        if i < k {
            assert(infos.codecs@[i].is_encoder);
        }
    }
}

/// At most one VAAPI encoder is the best for a format.
pub proof fn law_best_vaapi_is_unique(
    encoders: Seq<CodecInfo>,
    format: CodecFormat,
    i: int,
    k: int,
)
    requires
        is_best_vaapi(encoders, format, i),
        is_best_vaapi(encoders, format, k),
    ensures
        i == k,
{
    assert(is_vaapi(encoders[i], format));
    assert(is_vaapi(encoders[k], format));
}

/// Where hardware codecs are wanted and the best ones hold a decoder of the format, for
/// H.264 as for H.265, that decoder is used, whatever there is in software.
pub proof fn law_best_decoder_is_used(soft: CodecInfos, best: CodecInfos)
    ensures
        best.h264 is Some ==> decoder_for(CodecFormat::H264, soft, Some(best)) == best.h264,
        best.h265 is Some ==> decoder_for(CodecFormat::H265, soft, Some(best)) == best.h265,
{
}

/// The decoder in software is used where hardware codecs are not wanted and where the
/// best ones hold none of the format.
pub proof fn law_software_decoder_steps_in(soft: CodecInfos, best: CodecInfos)
    ensures
        decoder_for(CodecFormat::H264, soft, None) == soft.h264,
        decoder_for(CodecFormat::H265, soft, None) == soft.h265,
        best.h264 is None ==> decoder_for(CodecFormat::H264, soft, Some(best)) == soft.h264,
        best.h265 is None ==> decoder_for(CodecFormat::H265, soft, Some(best)) == soft.h265,
{
}

/// No hardware codec is ever used for any other format, neither to decode nor to
/// encode.
pub proof fn law_other_formats_have_no_hardware_codec(
    format: CodecFormat,
    soft: CodecInfos,
    best: Option<CodecInfos>,
)
    requires
        format != CodecFormat::H264,
        format != CodecFormat::H265,
    ensures
        decoder_for(format, soft, best) is None,
        pick(format, soft) is None,
{
}

/// The encoder of a format is the best one of just that format.
pub proof fn law_encoder_has_the_asked_format(best: CodecInfos)
    ensures
        pick(CodecFormat::H264, best) == best.h264,
        pick(CodecFormat::H265, best) == best.h265,
{
}

/// The VAAPI encoder that is used is of the asked format and called one of VAAPI; no
/// other such encoder has a lower priority value, and the first of equals is used.
pub proof fn law_best_vaapi_has_the_least_priority(
    encoders: Seq<CodecInfo>,
    format: CodecFormat,
    i: int,
    j: int,
)
    requires
        is_best_vaapi(encoders, format, i),
    ensures
        0 <= i < encoders.len(),
        text::contains(encoders[i].name@, "vaapi"@),
        format == CodecFormat::H264 || format == CodecFormat::H265,
        format == CodecFormat::H264 ==> encoders[i].format == DataFormat::H264,
        format == CodecFormat::H265 ==> encoders[i].format == DataFormat::H265,
        0 <= j < encoders.len() && encoders[j].format == encoders[i].format && text::contains(
            encoders[j].name@,
            "vaapi"@,
        ) ==> encoders[i].priority <= encoders[j].priority && (encoders[i].priority
            == encoders[j].priority ==> i <= j),
{
    if 0 <= j < encoders.len() {
        assert(is_vaapi(encoders[j], format) || !is_vaapi(encoders[j], format));
    }
}

/// There is a best VAAPI encoder of H.264 or H.265 as soon as there is one at all.
pub proof fn law_some_vaapi_is_best(encoders: Seq<CodecInfo>, format: CodecFormat, k: int)
    requires
        0 <= k < encoders.len(),
        text::contains(encoders[k].name@, "vaapi"@),
        (format == CodecFormat::H264 && encoders[k].format == DataFormat::H264) || (format
            == CodecFormat::H265 && encoders[k].format == DataFormat::H265),
    ensures
        exists|i: int| is_best_vaapi(encoders, format, i),
{
    lemma_least_vaapi(encoders, format, k, encoders.len() as int);
}

proof fn lemma_least_vaapi(encoders: Seq<CodecInfo>, format: CodecFormat, k: int, n: int)
    requires
        0 <= k < encoders.len(),
        0 <= n <= encoders.len(),
        is_vaapi(encoders[k], format),
    ensures
        n == encoders.len() ==> exists|i: int| is_best_vaapi(encoders, format, i),
        (exists|i: int| is_best_vaapi(encoders.take(n), format, i)) || forall|j: int|
            0 <= j < n ==> !is_vaapi(#[trigger] encoders[j], format),
    decreases n,
{
    if n > 0 {
        lemma_least_vaapi(encoders, format, k, n - 1);
        let head = encoders.take(n - 1);
        let next = encoders.take(n);
        assert(forall|j: int| 0 <= j < n - 1 ==> head[j] == encoders[j]);
        assert(forall|j: int| 0 <= j < n ==> next[j] == encoders[j]);
        if exists|i: int| is_best_vaapi(head, format, i) {
            let i = choose|i: int| is_best_vaapi(head, format, i);
            let at = if is_vaapi(encoders[n - 1], format) && encoders[n - 1].priority
                < encoders[i].priority {
                n - 1
            } else {
                i
            };
            assert forall|j: int|
                0 <= j < next.len() && is_vaapi(#[trigger] next[j], format) implies next[at].priority
                <= next[j].priority && (j < at ==> next[at].priority < next[j].priority) by {
                if j < n - 1 {
                    assert(is_vaapi(head[j], format));
                }
            }
            assert(is_best_vaapi(next, format, at));
        } else if is_vaapi(encoders[n - 1], format) {
            assert(is_best_vaapi(next, format, n - 1));
        }
    }
    if n == encoders.len() {
        assert(encoders.take(n) =~= encoders);
        assert(is_vaapi(encoders[k], format));
    }
}

/// A calculated bitrate is changed only for an encoder that goes through the system's
/// codecs and that the system lists.
pub proof fn law_bitrate_of_other_encoders_is_kept(
    name: Seq<char>,
    mc_name: Option<String>,
    media: Option<&MediaCodecInfos>,
    bitrate: u32,
    checked: u32,
)
    requires
        is_checked_bitrate(name, mc_name, media, bitrate, checked),
        ({
            ||| media is None
            ||| !text::contains(name, "mediacodec"@)
            ||| mc_name is None
            ||| media matches Some(infos) && forall|i: int|
                0 <= i < infos.codecs@.len() ==> !((#[trigger] infos.codecs@[i]).is_encoder
                    && infos.codecs@[i].name@ == mc_name.unwrap()@)
        }),
    ensures
        checked == bitrate,
{
    if let Some(infos) = media {
        assert forall|i: int| is_mediacodec(name) implies !#[trigger] is_listed(
            *infos,
            mc_name,
            i,
        ) by {
            if 0 <= i < infos.codecs@.len() {
                assert(infos.codecs@[i].is_encoder || !infos.codecs@[i].is_encoder);
            }
        }
    }
}

/// The first listed encoder of the name bounds the bitrate, if its bounds are any: a
/// bitrate between them is kept, one beyond them becomes the nearer one.
pub proof fn law_bitrate_goes_to_the_nearest_bound(
    name: Seq<char>,
    mc_name: Option<String>,
    infos: &MediaCodecInfos,
    bitrate: u32,
    checked: u32,
    i: int,
)
    requires
        is_checked_bitrate(name, mc_name, Some(infos), bitrate, checked),
        text::contains(name, "mediacodec"@),
        0 <= i < infos.codecs@.len(),
        infos.codecs@[i].is_encoder,
        mc_name matches Some(wanted) && infos.codecs@[i].name@ == wanted@,
        forall|j: int|
            0 <= j < i ==> !((#[trigger] infos.codecs@[j]).is_encoder && infos.codecs@[j].name@
                == mc_name.unwrap()@),
    ensures
        ({
            let min = infos.codecs@[i].min_bitrate;
            let max = infos.codecs@[i].max_bitrate;
            &&& max <= min ==> checked == bitrate
            &&& min < max && min <= bitrate <= max ==> checked == bitrate
            &&& min < max && bitrate > max ==> checked == max
            &&& min < max && bitrate < min ==> checked == min
        }),
{
    assert(is_listed(*infos, mc_name, i));
    let k = choose|k: int| #[trigger]
        is_listed(*infos, mc_name, k) && checked == within(
            bitrate,
            infos.codecs@[k].min_bitrate,
            infos.codecs@[k].max_bitrate,
        );
    assert(k == i) by {
        if k < i {
            assert(infos.codecs@[k].is_encoder);
        }
        if i < k {
            assert(infos.codecs@[i].is_encoder);
        }
    }
}

/// An encoder is opened with the name, the size, the bitrate and the interval between
/// key frames of its configuration; without an interval the key frames are as far
/// apart as can be. Only an encoder of Android's codecs on Android varies its rate.
pub proof fn law_encoder_is_opened_as_configured(
    context: EncodeContext,
    name: String,
    mc_name: Option<String>,
    width: usize,
    height: usize,
    keyframe_interval: Option<usize>,
    bitrate: u32,
    machine: Machine,
)
    requires
        is_context_for(
            context,
            name,
            mc_name,
            width,
            height,
            keyframe_interval,
            bitrate,
            machine,
        ),
    ensures
        context.name == name,
        context.mc_name == mc_name,
        context.width == width as i32,
        context.height == height as i32,
        context.kbs == bitrate as i32,
        width <= i32::MAX ==> context.width == width,
        height <= i32::MAX ==> context.height == height,
        bitrate <= i32::MAX ==> context.kbs == bitrate,
        context.fps == 30,
        context.pixfmt == AVPixelFormat::AV_PIX_FMT_NV12,
        context.align == machine.align,
        context.thread_count == machine.thread_count,
        context.quality == Quality::Quality_Default,
        context.q == -1,
        keyframe_interval is None ==> context.gop == i32::MAX,
        keyframe_interval matches Some(interval) ==> context.gop == interval as i32 && (interval
            <= i32::MAX ==> context.gop == interval),
        context.rc == RateControl::RC_VBR <==> machine.android && text::contains(
            name@,
            "mediacodec"@,
        ),
        context.rc == RateControl::RC_CBR <==> !(machine.android && text::contains(
            name@,
            "mediacodec"@,
        )),
{
}

/// A message holds every frame that the encoder made, in their order, with its bytes
/// and its time, and marked as a key frame exactly if the encoder says so; it is a
/// message of the encoder's format.
pub proof fn law_message_holds_every_frame(
    message: Result<VideoFrame, Error>,
    format: DataFormat,
    frames: Seq<EncodeFrame>,
    i: int,
)
    requires
        is_message_of(message, format, frames),
        0 <= i < frames.len(),
        format == DataFormat::H264 || format == DataFormat::H265,
    ensures
        message is Ok,
        format == DataFormat::H264 <==> message->Ok_0 is H264s,
        ({
            let sent = match message->Ok_0 {
                VideoFrame::H264s(sent) => sent@,
                VideoFrame::H265s(sent) => sent@,
            };
            &&& sent.len() == frames.len()
            &&& sent[i].data == frames[i].data
            &&& sent[i].pts == frames[i].pts
            &&& sent[i].key <==> frames[i].key == 1
        }),
{
}

/// An encoder that made nothing yet is to be asked again; frames of a format for which
/// there is no message are refused.
pub proof fn law_when_there_is_no_message(
    message: Result<VideoFrame, Error>,
    format: DataFormat,
    frames: Seq<EncodeFrame>,
)
    requires
        is_message_of(message, format, frames),
        frames.len() == 0 || (format != DataFormat::H264 && format != DataFormat::H265),
    ensures
        message is Err,
        frames.len() == 0 <==> message->Err_0@.kind == ErrorKind::WouldBlock,
        frames.len() > 0 ==> message->Err_0@ == Failure::of(
            ErrorKind::Other,
            "unsupported format: "@ + (match format {
                DataFormat::VP8 => "VP8"@,
                DataFormat::VP9 => "VP9"@,
                _ => "AV1"@,
            }),
        ),
{
}

/// The layout in which an encoder takes pictures has the encoder's size and the length
/// of each of its rows, and says where the planes behind the first start.
pub proof fn law_layout_is_the_encoders(
    layout: EncodeYuvFormat,
    pixfmt: AVPixelFormat,
    width: i32,
    height: i32,
    linesize: Seq<i32>,
    offset: Seq<i32>,
    i: int,
)
    requires
        is_yuv_layout(layout, pixfmt, width, height, linesize, offset),
    ensures
        layout.w == width as usize,
        layout.h == height as usize,
        layout.stride@.len() == linesize.len(),
        0 <= i < linesize.len() ==> layout.stride@[i] == linesize[i] as usize,
        layout.u == offset[0] as usize,
        pixfmt == AVPixelFormat::AV_PIX_FMT_NV12 ==> layout.pixfmt == Pixfmt::NV12 && layout.v == 0,
        pixfmt == AVPixelFormat::AV_PIX_FMT_YUV420P ==> layout.pixfmt == Pixfmt::I420 && layout.v
            == offset[1] as usize,
        width >= 0 ==> layout.w == width,
        height >= 0 ==> layout.h == height,
        0 <= i < linesize.len() && linesize[i] >= 0 ==> layout.stride@[i] == linesize[i],
        offset[0] >= 0 ==> layout.u == offset[0],
{
}

/// Changing the quality of an encoder on main memory takes over the ratio, and the
/// bitrate for it where one was calculated, within the encoder's bounds; a bitrate that
/// was not calculated leaves the old one. Nothing else changes.
pub proof fn law_quality_of_ram_encoder(
    before: HwRamEncoder,
    after: HwRamEncoder,
    ratio: u32,
    calculated: u32,
    media: Option<&MediaCodecInfos>,
    bitrate: Option<i32>,
)
    requires
        before.is_quality_set(after, ratio, calculated, media, bitrate),
    ensures
        after.config.quality == ratio,
        after.config.name == before.config.name,
        after.config.mc_name == before.config.mc_name,
        after.config.width == before.config.width,
        after.config.height == before.config.height,
        after.config.keyframe_interval == before.config.keyframe_interval,
        after.format == before.format,
        after.pixfmt == before.pixfmt,
        calculated == 0 <==> bitrate is None,
        calculated == 0 ==> after.bitrate == before.bitrate,
        calculated >= 1 ==> is_checked_bitrate(
            before.config.name@,
            before.config.mc_name,
            media,
            calculated,
            after.bitrate,
        ),
        bitrate matches Some(set) ==> set == after.bitrate as i32 && (after.bitrate <= i32::MAX
            ==> set == after.bitrate),
{
}

/// Changing the quality of an encoder of exported buffers takes over the ratio, and the
/// bitrate for it where one was calculated, within the encoder's bounds; a bitrate that
/// was not calculated leaves the old one. Nothing else changes.
pub proof fn law_quality_of_dmabuf_encoder(
    before: HwDmabufEncoder,
    after: HwDmabufEncoder,
    ratio: u32,
    calculated: u32,
    media: Option<&MediaCodecInfos>,
    bitrate: Option<i32>,
)
    requires
        before.is_quality_set(after, ratio, calculated, media, bitrate),
    ensures
        after.config.quality == ratio,
        after.config.name == before.config.name,
        after.config.mc_name == before.config.mc_name,
        after.config.device_path == before.config.device_path,
        after.config.width == before.config.width,
        after.config.height == before.config.height,
        after.config.keyframe_interval == before.config.keyframe_interval,
        after.format == before.format,
        after.pixfmt == before.pixfmt,
        calculated == 0 <==> bitrate is None,
        calculated == 0 ==> after.bitrate == before.bitrate,
        calculated >= 1 ==> is_checked_bitrate(
            before.config.name@,
            before.config.mc_name,
            media,
            calculated,
            after.bitrate,
        ),
        bitrate matches Some(set) ==> set == after.bitrate as i32 && (after.bitrate <= i32::MAX
            ==> set == after.bitrate),
{
}

/// The plan to open an encoder is made of its configuration, with the bitrate within
/// the encoder's bounds, the same in the plan and in what the encoder is opened with.
pub proof fn law_plan_follows_the_configuration(
    ram: HwRamEncoderConfig,
    ram_plan: EncoderPlan,
    dmabuf: HwDmabufEncoderConfig,
    dmabuf_plan: EncoderPlan,
    calculated: u32,
    media: Option<&MediaCodecInfos>,
    machine: Machine,
)
    requires
        is_ram_plan(ram_plan, ram, calculated, media, machine),
        is_dmabuf_plan(dmabuf_plan, dmabuf, calculated, media, machine),
    ensures
        is_checked_bitrate(ram.name@, ram.mc_name, media, calculated, ram_plan.bitrate),
        is_context_for(
            ram_plan.context,
            ram.name,
            ram.mc_name,
            ram.width,
            ram.height,
            ram.keyframe_interval,
            ram_plan.bitrate,
            machine,
        ),
        is_checked_bitrate(dmabuf.name@, dmabuf.mc_name, media, calculated, dmabuf_plan.bitrate),
        is_context_for(
            dmabuf_plan.context,
            dmabuf.name,
            dmabuf.mc_name,
            dmabuf.width,
            dmabuf.height,
            dmabuf.keyframe_interval,
            dmabuf_plan.bitrate,
            machine,
        ),
{
}

/// Formats are called by their own names, in whatever list they stand.
pub proof fn law_formats_are_called_by_their_names(format: CodecFormat)
    ensures
        data_format(format) matches Some(data) ==> codec_text(format) == format_text(data),
        format_text(DataFormat::H264) == "H264"@ && codec_text(CodecFormat::H264) == "H264"@,
        format_text(DataFormat::H265) == "H265"@ && codec_text(CodecFormat::H265) == "H265"@,
        format_text(DataFormat::VP8) == "VP8"@ && codec_text(CodecFormat::VP8) == "VP8"@,
        format_text(DataFormat::VP9) == "VP9"@ && codec_text(CodecFormat::VP9) == "VP9"@,
        format_text(DataFormat::AV1) == "AV1"@ && codec_text(CodecFormat::AV1) == "AV1"@,
        codec_text(CodecFormat::Unknown) == "Unknown"@,
{
}

/// A decoder that cannot be opened takes the decoders on main memory off the list, and
/// no other codec; one that can be leaves the list alone.
pub proof fn law_failed_decoder_takes_the_others_along<E, D>(
    decoder: Result<HwRamDecoder, Error>,
    before: ConfigState<E, D>,
    after: ConfigState<E, D>,
    info: CodecInfo,
    opened: bool,
)
    requires
        HwRamDecoder::is_new(decoder, before, after, info, opened),
    ensures
        decoder is Ok <==> opened,
        decoder matches Ok(decoder) ==> decoder.info == info && after.codecs() == before.codecs(),
        after.set_by_ipc == before.set_by_ipc,
        decoder is Err && before.codecs() is None ==> after.codecs() is None,
        decoder is Err ==> (before.codecs() matches Some(known) ==> (
        after.codecs() matches Some(left) && left.ram_decode.len() == 0 && left.ram_encode
            == known.ram_encode && left.vram_encode == known.vram_encode && left.vram_decode
            == known.vram_decode && left.signature == known.signature)),
{
}

/// Wherever the name of an encoder says that it is one of VAAPI, its quality stays; any
/// other encoder's can be changed. The encoders of the system's own codecs keep frames
/// back, and no other encoder on main memory does.
pub proof fn law_encoders_are_known_by_their_names(
    head: Seq<char>,
    tail: Seq<char>,
    name: Seq<char>,
)
    ensures
        !has_changing_quality(head + "vaapi"@ + tail),
        !is_latency_free(head + "mediacodec"@ + tail),
        !is_latency_free(head + "videotoolbox"@ + tail),
        !text::contains(name, "vaapi"@) ==> has_changing_quality(name),
        !text::contains(name, "mediacodec"@) && !text::contains(name, "videotoolbox"@)
            ==> is_latency_free(name),
{
    text::law_contains(name, "vaapi"@, head, tail);
    text::law_contains(name, "mediacodec"@, head, tail);
    text::law_contains(name, "videotoolbox"@, head, tail);
}

/// What an encoder made becomes a message, on main memory as of exported buffers; a
/// failure of the encoder is told with its reason, and only that counts against
/// exported frames.
pub proof fn law_encoder_failure_is_told(
    ram: HwRamEncoder,
    message: Result<VideoFrame, Error>,
    dmabuf: HwDmabufEncoder,
    outcome: DmabufMessage,
    encoded: Result<Vec<EncodeFrame>, String>,
)
    requires
        ram.is_encoded(message, encoded),
        dmabuf.is_encoded(outcome, encoded),
    ensures
        outcome.encoded <==> encoded is Ok,
        encoded matches Ok(frames) ==> is_message_of(message, ram.format, frames@)
            && is_message_of(outcome.message, dmabuf.format, frames@),
        encoded matches Err(reason) ==> {
            &&& message matches Err(err) && err@.cause matches Some(cause) && cause@.message
                == "hardware encoder failed: "@ + reason@ && err@.message == "Failed to encode"@
            &&& outcome.message matches Err(err) && err@.message == "Failed to encode dmabuf: "@
                + reason@
        },
{
}

/// An exported frame is given to the encoder whole, with all its planes in their order,
/// to be encoded in the size that the encoder was opened with.
pub proof fn law_exported_frame_is_given_whole(
    encoder: HwDmabufEncoder,
    given: EncoderDmabufFrame,
    frame: DmabufFrame<i32>,
    i: int,
)
    requires
        encoder.is_given(given, frame),
    ensures
        given.planes@.len() == frame.planes@.len(),
        0 <= i < frame.planes@.len() ==> given.planes@[i].fd == frame.planes@[i].fd
            && given.planes@[i].stride == frame.planes@[i].stride && given.planes@[i].offset
            == frame.planes@[i].offset,
        given.width == frame.width,
        given.height == frame.height,
        given.fourcc == frame.fourcc,
        given.modifier == frame.modifier,
        given.encode_width == encoder.config.width,
        given.encode_height == encoder.config.height,
{
}

} // verus!
