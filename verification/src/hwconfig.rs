//! Which hardware codecs a machine has: the list that a check process makes,
//! that is handed over once and from which codecs are struck that fail.

use crate::helper;
use crate::helper::CommandPart;
use crate::text;
use vstd::prelude::*;

verus! {

#[derive(Clone, Copy, PartialEq, Eq, Debug, Structural)]
pub enum DataFormat {
    H264,
    H265,
    VP8,
    VP9,
    AV1,
}

#[derive(Clone, Copy, PartialEq, Eq, Debug, Structural)]
pub enum CodecFormat {
    Unknown,
    VP8,
    VP9,
    AV1,
    H264,
    H265,
}

/// The device type of a codec that runs on no particular device.
pub const AV_HWDEVICE_TYPE_NONE: i32 = 0;

/// A codec that can be used.
#[derive(Debug)]
pub struct CodecInfo {
    pub name: String,
    pub mc_name: Option<String>,
    pub format: DataFormat,
    pub priority: i32,
    pub hwdevice: i32,
}

impl Clone for CodecInfo {
    fn clone(&self) -> (copy: CodecInfo)
        ensures
            copy == *self,
    {
        CodecInfo {
            name: self.name.clone(),
            mc_name: match &self.mc_name {
                Some(name) => Some(name.clone()),
                None => None,
            },
            format: self.format,
            priority: self.priority,
            hwdevice: self.hwdevice,
        }
    }
}

/// The codecs to use, one for each format.
#[derive(Debug)]
pub struct CodecInfos {
    pub h264: Option<CodecInfo>,
    pub h265: Option<CodecInfo>,
}

/// The hardware codecs of a machine: those that work on main memory, and those
/// that work on the memory of the GPU, of which `E` stands for an encoder and `D`
/// for a decoder. The signature tells machines apart.
#[derive(Debug)]
pub struct HwCodecConfig<E, D> {
    pub signature: u64,
    pub ram_encode: Vec<CodecInfo>,
    pub ram_decode: Vec<CodecInfo>,
    pub vram_encode: Vec<E>,
    pub vram_decode: Vec<D>,
}

#[verifier::ext_equal]
pub struct Codecs<E, D> {
    pub signature: u64,
    pub ram_encode: Seq<CodecInfo>,
    pub ram_decode: Seq<CodecInfo>,
    pub vram_encode: Seq<E>,
    pub vram_decode: Seq<D>,
}

impl<E, D> View for HwCodecConfig<E, D> {
    type V = Codecs<E, D>;

    open spec fn view(&self) -> Codecs<E, D> {
        Codecs {
            signature: self.signature,
            ram_encode: self.ram_encode@,
            ram_decode: self.ram_decode@,
            vram_encode: self.vram_encode@,
            vram_decode: self.vram_decode@,
        }
    }
}

pub open spec fn no_codecs<E, D>() -> Codecs<E, D> {
    Codecs {
        signature: 0,
        ram_encode: Seq::empty(),
        ram_decode: Seq::empty(),
        vram_encode: Seq::empty(),
        vram_decode: Seq::empty(),
    }
}

impl<E, D> Default for HwCodecConfig<E, D> {
    fn default() -> (config: HwCodecConfig<E, D>)
        ensures
            config@ == no_codecs::<E, D>(),
    {
        HwCodecConfig {
            signature: 0,
            ram_encode: Vec::new(),
            ram_decode: Vec::new(),
            vram_encode: Vec::new(),
            vram_decode: Vec::new(),
        }
    }
}

impl<E: Copy, D: Copy> Clone for HwCodecConfig<E, D> {
    fn clone(&self) -> (copy: HwCodecConfig<E, D>)
        ensures
            copy@ == self@,
    {
        HwCodecConfig {
            signature: self.signature,
            ram_encode: copy_codecs(&self.ram_encode),
            ram_decode: copy_codecs(&self.ram_decode),
            vram_encode: copy_all(&self.vram_encode),
            vram_decode: copy_all(&self.vram_decode),
        }
    }
}

fn copy_all<T: Copy>(items: &Vec<T>) -> (copy: Vec<T>)
    ensures
        copy@ == items@,
{
    let mut copy: Vec<T> = Vec::new();
    for i in 0..items.len()
        invariant
            copy@ == items@.take(i as int),
    {
        copy.push(items[i]);
        assert(copy@ =~= items@.take(i + 1));
    }
    copy
}

fn copy_codecs(codecs: &Vec<CodecInfo>) -> (copy: Vec<CodecInfo>)
    ensures
        copy@ == codecs@,
{
    let mut copy: Vec<CodecInfo> = Vec::new();
    for i in 0..codecs.len()
        invariant
            copy@ == codecs@.take(i as int),
    {
        copy.push(codecs[i].clone());
        assert(copy@ =~= codecs@.take(i + 1));
    }
    copy
}

/// What the process knows of its hardware codecs, and whether that was handed to
/// it.
#[derive(Debug)]
pub struct ConfigState<E, D> {
    pub config: Option<HwCodecConfig<E, D>>,
    pub set_by_ipc: bool,
}

impl<E, D> ConfigState<E, D> {
    pub open spec fn codecs(self) -> Option<Codecs<E, D>> {
        match self.config {
            Some(config) => Some(config@),
            None => None,
        }
    }

    /// The list that was handed over, if one was.
    pub open spec fn handed_over(self) -> Option<Codecs<E, D>> {
        if self.set_by_ipc {
            self.codecs()
        } else {
            None
        }
    }

    /// Nothing is known yet.
    pub fn new() -> (state: ConfigState<E, D>)
        ensures
            state.codecs() is None,
            !state.set_by_ipc,
    {
        ConfigState { config: None, set_by_ipc: false }
    }
}

/// Where a process without a list of its own finds one.
#[derive(Debug)]
pub enum ConfigSource<'a, E, D> {
    /// The system lists its codecs, or does not.
    Android(Option<&'a MediaCodecInfos>),
    /// A list was stored; it holds for the machine with that signature. The
    /// signature is the one that this machine has now.
    Stored { config: HwCodecConfig<E, D>, signature: u64 },
    /// There is nowhere else to look.
    HandedOver,
    /// There are no hardware codecs.
    Ios,
}

/// A codec as the system lists it.
#[derive(Debug)]
pub struct MediaCodecInfo {
    pub name: String,
    pub is_encoder: bool,
    pub hw: Option<bool>,
    pub mime_type: String,
    pub nv12: bool,
    pub min_bitrate: u32,
    pub max_bitrate: u32,
    pub max_width: usize,
    pub max_height: usize,
}

/// The codecs that the system lists, and the size of the screen.
#[derive(Debug)]
pub struct MediaCodecInfos {
    pub w: usize,
    pub h: usize,
    pub codecs: Vec<MediaCodecInfo>,
}

pub open spec fn mime_type(codec: DataFormat) -> Seq<char> {
    match codec {
        DataFormat::VP8 => "video/x-vnd.on2.vp8"@,
        DataFormat::VP9 => "video/x-vnd.on2.vp9"@,
        DataFormat::AV1 => "video/av01"@,
        DataFormat::H264 => "video/avc"@,
        DataFormat::H265 => "video/hevc"@,
    }
}

pub fn get_mime_type(codec: DataFormat) -> (mime: &'static str)
    ensures
        mime@ == mime_type(codec),
{
    match codec {
        DataFormat::VP8 => "video/x-vnd.on2.vp8",
        DataFormat::VP9 => "video/x-vnd.on2.vp9",
        DataFormat::AV1 => "video/av01",
        DataFormat::H264 => "video/avc",
        DataFormat::H265 => "video/hevc",
    }
}

/// A hardware encoder of that format that takes NV12.
pub open spec fn is_eligible(codec: MediaCodecInfo, format: DataFormat) -> bool {
    codec.is_encoder && codec.mime_type@ == mime_type(format) && codec.nv12 && codec.hw == Some(
        true,
    )
}

/// The longer side of the screen.
pub open spec fn screen_side(infos: MediaCodecInfos) -> usize {
    if infos.w > infos.h {
        infos.w
    } else {
        infos.h
    }
}

/// The codec takes the screen whichever way it is turned.
pub open spec fn takes_screen(codec: MediaCodecInfo, infos: MediaCodecInfos) -> bool {
    codec.max_width >= screen_side(infos) && codec.max_height >= screen_side(infos)
}

pub open spec fn max_area(codec: MediaCodecInfo) -> int {
    codec.max_width * codec.max_height
}

/// The codec at `i` is the first eligible one that takes the screen.
pub open spec fn is_first_fit(infos: MediaCodecInfos, format: DataFormat, i: int) -> bool {
    &&& 0 <= i < infos.codecs@.len()
    &&& is_eligible(infos.codecs@[i], format)
    &&& takes_screen(infos.codecs@[i], infos)
    &&& forall|j: int|
        0 <= j < i && is_eligible(#[trigger] infos.codecs@[j], format) ==> !takes_screen(
            infos.codecs@[j],
            infos,
        )
}

/// The codec at `i` is the first of the eligible ones with the largest area.
pub open spec fn is_first_largest(infos: MediaCodecInfos, format: DataFormat, i: int) -> bool {
    &&& 0 <= i < infos.codecs@.len()
    &&& is_eligible(infos.codecs@[i], format)
    &&& max_area(infos.codecs@[i]) > 0
    &&& forall|j: int|
        0 <= j < infos.codecs@.len() && is_eligible(#[trigger] infos.codecs@[j], format)
            ==> max_area(infos.codecs@[j]) <= max_area(infos.codecs@[i]) && (j < i ==> max_area(
            infos.codecs@[j],
        ) < max_area(infos.codecs@[i]))
}

pub open spec fn some_takes_screen(infos: MediaCodecInfos, format: DataFormat) -> bool {
    exists|j: int|
        0 <= j < infos.codecs@.len() && is_eligible(#[trigger] infos.codecs@[j], format)
            && takes_screen(infos.codecs@[j], infos)
}

/// The codec at `i` is the one to use: one that takes the screen, else the
/// largest.
pub open spec fn is_best(infos: MediaCodecInfos, format: DataFormat, i: int) -> bool {
    if some_takes_screen(infos, format) {
        is_first_fit(infos, format, i)
    } else {
        is_first_largest(infos, format, i)
    }
}

/// No codec can be used: none is eligible and has an area, nor takes the screen.
pub open spec fn has_none(infos: MediaCodecInfos, format: DataFormat) -> bool {
    !some_takes_screen(infos, format) && forall|j: int|
        0 <= j < infos.codecs@.len() && is_eligible(#[trigger] infos.codecs@[j], format)
            ==> max_area(infos.codecs@[j]) == 0
}

fn eligible(codec: &MediaCodecInfo, format: DataFormat) -> (yes: bool)
    ensures
        yes == is_eligible(*codec, format),
{
    codec.is_encoder && text::equals(codec.mime_type.as_str(), get_mime_type(format)) && codec.nv12
        && match codec.hw {
        Some(hw) => hw,
        None => false,
    }
}

/// The place of the codec to use for a format.
pub fn best_codec(infos: &MediaCodecInfos, format: DataFormat) -> (best: Option<usize>)
    ensures
        match best {
            Some(i) => is_best(*infos, format, i as int),
            None => has_none(*infos, format),
        },
{
    let side: usize = if infos.w > infos.h {
        infos.w
    } else {
        infos.h
    };
    for i in 0..infos.codecs.len()
        invariant
            side == screen_side(*infos),
            forall|j: int|
                0 <= j < i && is_eligible(#[trigger] infos.codecs@[j], format) ==> !takes_screen(
                    infos.codecs@[j],
                    *infos,
                ),
    {
        let codec = &infos.codecs[i];
        if eligible(codec, format) && codec.max_width >= side && codec.max_height >= side {
            assert(is_first_fit(*infos, format, i as int));
            assert(is_eligible(infos.codecs@[i as int], format));
            return Some(i);
        }
    }
    let mut best: Option<usize> = None;
    let mut largest: u128 = 0;
    for i in 0..infos.codecs.len()
        invariant
            !some_takes_screen(*infos, format),
            match best {
                Some(best) => {
                    &&& best < i
                    &&& is_eligible(infos.codecs@[best as int], format)
                    &&& max_area(infos.codecs@[best as int]) == largest
                    &&& forall|j: int|
                        0 <= j < best && is_eligible(#[trigger] infos.codecs@[j], format)
                            ==> max_area(infos.codecs@[j]) < largest
                },
                None => largest == 0,
            },
            best is Some ==> largest > 0,
            forall|j: int|
                0 <= j < i && is_eligible(#[trigger] infos.codecs@[j], format) ==> max_area(
                    infos.codecs@[j],
                ) <= largest,
    {
        let codec = &infos.codecs[i];
        if eligible(codec, format) {
            proof {
                let w = codec.max_width as int;
                let h = codec.max_height as int;
                assert(0 <= w * h <= 0xffff_ffff_ffff_ffff * 0xffff_ffff_ffff_ffff)
                    by (nonlinear_arith)
                    requires
                        0 <= w <= 0xffff_ffff_ffff_ffff,
                        0 <= h <= 0xffff_ffff_ffff_ffff,
                ;
            }
            let area: u128 = codec.max_width as u128 * codec.max_height as u128;
            if area > largest {
                best = Some(i);
                largest = area;
            }
        }
    }
    proof {
        if best is None {
            assert forall|j: int|
                0 <= j < infos.codecs@.len() && is_eligible(
                    #[trigger] infos.codecs@[j],
                    format,
                ) implies max_area(infos.codecs@[j]) == 0 by {
                let w = infos.codecs@[j].max_width as int;
                let h = infos.codecs@[j].max_height as int;
                assert(0 <= w * h) by (nonlinear_arith)
                    requires
                        0 <= w,
                        0 <= h,
                ;
            }
        }
    }
    best
}

/// At most one codec is the best for a format.
pub proof fn law_best_codec_is_unique(infos: MediaCodecInfos, format: DataFormat, i: int, k: int)
    requires
        is_best(infos, format, i),
        is_best(infos, format, k),
    ensures
        i == k,
{
    assert(is_eligible(infos.codecs@[i], format));
    assert(is_eligible(infos.codecs@[k], format));
}

/// The codec's entry in the list of encoders.
pub open spec fn is_media_encoder(
    encoder: CodecInfo,
    infos: MediaCodecInfos,
    format: DataFormat,
    prefix: Seq<char>,
) -> bool {
    &&& encoder.name@ == prefix + "_mediacodec"@
    &&& encoder.mc_name matches Some(name) && exists|i: int| #[trigger]
        is_best(infos, format, i) && infos.codecs@[i].name == name
    &&& encoder.format == format
    &&& encoder.hwdevice == AV_HWDEVICE_TYPE_NONE
    &&& encoder.priority == 0
}

fn media_encoder(infos: &MediaCodecInfos, format: DataFormat, prefix: &str) -> (encoder: Option<
    CodecInfo,
>)
    ensures
        match encoder {
            Some(encoder) => is_media_encoder(encoder, *infos, format, prefix@),
            None => has_none(*infos, format),
        },
{
    match best_codec(infos, format) {
        Some(best) => Some(
            CodecInfo {
                name: text::join(prefix, "_mediacodec"),
                mc_name: Some(infos.codecs[best].name.clone()),
                format,
                priority: 0,
                hwdevice: AV_HWDEVICE_TYPE_NONE,
            },
        ),
        None => None,
    }
}

/// The encoders that a listing of the system's codecs gives: one for H.264 if
/// there is any, and behind it one for H.265 if there is any.
pub open spec fn are_media_encoders(encoders: Seq<CodecInfo>, infos: MediaCodecInfos) -> bool {
    let h264 = if has_none(infos, DataFormat::H264) {
        0int
    } else {
        1
    };
    let h265 = if has_none(infos, DataFormat::H265) {
        0int
    } else {
        1
    };
    &&& encoders.len() == h264 + h265
    &&& h264 == 1 ==> is_media_encoder(encoders[0], infos, DataFormat::H264, "h264"@)
    &&& h265 == 1 ==> is_media_encoder(encoders[h264], infos, DataFormat::H265, "hevc"@)
}

proof fn lemma_best_or_none(infos: MediaCodecInfos, format: DataFormat, i: int)
    requires
        is_best(infos, format, i),
    ensures
        !has_none(infos, format),
{
    assert(is_eligible(infos.codecs@[i], format));
}

fn media_encoders(infos: Option<&MediaCodecInfos>) -> (encoders: Vec<CodecInfo>)
    ensures
        match infos {
            Some(infos) => are_media_encoders(encoders@, *infos),
            None => encoders@.len() == 0,
        },
{
    let mut encoders: Vec<CodecInfo> = Vec::new();
    if let Some(infos) = infos {
        if let Some(encoder) = media_encoder(infos, DataFormat::H264, "h264") {
            proof {
                let i = choose|i: int| #[trigger] is_best(*infos, DataFormat::H264, i);
                lemma_best_or_none(*infos, DataFormat::H264, i);
            }
            encoders.push(encoder);
        }
        if let Some(encoder) = media_encoder(infos, DataFormat::H265, "hevc") {
            proof {
                let i = choose|i: int| #[trigger] is_best(*infos, DataFormat::H265, i);
                lemma_best_or_none(*infos, DataFormat::H265, i);
            }
            encoders.push(encoder);
        }
    }
    encoders
}

/// The state after a list was handed over; one that could not be read stands for an
/// empty list.
pub open spec fn takes_over<E, D>(
    after: ConfigState<E, D>,
    config: Option<HwCodecConfig<E, D>>,
) -> bool {
    &&& after.set_by_ipc
    &&& after.handed_over() == after.codecs()
    &&& after.codecs() == Some(
        match config {
            Some(config) => config@,
            None => no_codecs::<E, D>(),
        },
    )
}

/// The list is this machine's, as far as the state and the source know it.
pub open spec fn is_list_of<E, D>(
    before: ConfigState<E, D>,
    after: ConfigState<E, D>,
    source: ConfigSource<E, D>,
    config: HwCodecConfig<E, D>,
) -> bool {
    &&& after.set_by_ipc == before.set_by_ipc
    &&& match source {
        ConfigSource::Android(infos) => {
            &&& after.codecs() == before.codecs()
            &&& config@.signature == 0
            &&& config@.ram_decode =~= Seq::<CodecInfo>::empty()
            &&& config@.vram_encode =~= Seq::<E>::empty()
            &&& config@.vram_decode =~= Seq::<D>::empty()
            &&& match infos {
                Some(infos) => are_media_encoders(config@.ram_encode, *infos),
                None => config@.ram_encode =~= Seq::<CodecInfo>::empty(),
            }
        },
        ConfigSource::Stored { config: stored, signature } => match before.codecs() {
            Some(codecs) => config@ == codecs && after.codecs() == Some(codecs),
            None => if stored.signature == signature {
                config@ == stored@ && after.codecs() == Some(stored@)
            } else {
                config@ == no_codecs::<E, D>() && after.codecs() is None
            },
        },
        ConfigSource::HandedOver => {
            &&& after.codecs() == before.codecs()
            &&& config@ == (match before.codecs() {
                Some(codecs) => codecs,
                None => no_codecs::<E, D>(),
            })
        },
        ConfigSource::Ios => after.codecs() == before.codecs() && config@ == no_codecs::<E, D>(),
    }
}

impl<E, D> HwCodecConfig<E, D> {
    /// Takes the list that was handed over; one that could not be read stands for
    /// an empty list. From then on it is the list that was handed over.
    pub fn set(state: &mut ConfigState<E, D>, config: Option<HwCodecConfig<E, D>>)
        ensures
            takes_over(*final(state), config),
    {
        let config = match config {
            Some(config) => config,
            None => HwCodecConfig::default(),
        };
        state.config = Some(config);
        state.set_by_ipc = true;
    }

    pub fn already_set(state: &ConfigState<E, D>) -> (set: bool)
        ensures
            set == state.set_by_ipc,
    {
        state.set_by_ipc
    }

    /// Strikes encoders or decoders off the list, those that work on the GPU's memory
    /// or those that work on main memory.
    pub fn clear(state: &mut ConfigState<E, D>, vram: bool, encode: bool)
        ensures
            final(state).set_by_ipc == old(state).set_by_ipc,
            final(state).codecs() == cleared(old(state).codecs(), vram, encode),
    {
        match state.config.take() {
            Some(config) => {
                let mut config = config;
                if vram {
                    if encode {
                        config.vram_encode = Vec::new();
                    } else {
                        config.vram_decode = Vec::new();
                    }
                } else {
                    if encode {
                        config.ram_encode = Vec::new();
                    } else {
                        config.ram_decode = Vec::new();
                    }
                }
                state.config = Some(config);
            },
            None => {},
        }
    }
}

impl<E: Copy, D: Copy> HwCodecConfig<E, D> {
    /// The list of this machine. A stored list is kept if it was made on this very
    /// machine, and passed over if not.
    pub fn get(state: &mut ConfigState<E, D>, source: ConfigSource<E, D>) -> (config: HwCodecConfig<
        E,
        D,
    >)
        ensures
            is_list_of(*old(state), *final(state), source, config),
    {
        match source {
            ConfigSource::Android(infos) => HwCodecConfig {
                signature: 0,
                ram_encode: media_encoders(infos),
                ram_decode: Vec::new(),
                vram_encode: Vec::new(),
                vram_decode: Vec::new(),
            },
            ConfigSource::Stored { config: stored, signature } => {
                if let Some(config) = &state.config {
                    return config.clone();
                }
                if stored.signature == signature {
                    state.config = Some(stored.clone());
                    stored
                } else {
                    HwCodecConfig::default()
                }
            },
            ConfigSource::HandedOver => match &state.config {
                Some(config) => config.clone(),
                None => HwCodecConfig::default(),
            },
            ConfigSource::Ios => HwCodecConfig::default(),
        }
    }

    /// The list that was handed over, if one was.
    pub fn get_set_value(state: &ConfigState<E, D>) -> (value: Option<HwCodecConfig<E, D>>)
        ensures
            match value {
                Some(config) => state.handed_over() == Some(config@),
                None => state.handed_over() is None,
            },
    {
        if state.set_by_ipc {
            match &state.config {
                Some(config) => Some(config.clone()),
                None => None,
            }
        } else {
            None
        }
    }
}

/// A list without its encoders or its decoders on one kind of memory.
pub open spec fn cleared<E, D>(codecs: Option<Codecs<E, D>>, vram: bool, encode: bool) -> Option<
    Codecs<E, D>,
> {
    match codecs {
        Some(codecs) => Some(
            if vram {
                if encode {
                    Codecs { vram_encode: Seq::empty(), ..codecs }
                } else {
                    Codecs { vram_decode: Seq::empty(), ..codecs }
                }
            } else {
                if encode {
                    Codecs { ram_encode: Seq::empty(), ..codecs }
                } else {
                    Codecs { ram_decode: Seq::empty(), ..codecs }
                }
            },
        ),
        None => None,
    }
}

/// Striking off empties one of the four lists and leaves the other three and the
/// signature; to strike off twice is to strike off once; there is nothing to
/// strike off an unknown list.
pub proof fn law_clearing_is_selective<E, D>(codecs: Codecs<E, D>, vram: bool, encode: bool)
    ensures
        cleared(Some(codecs), vram, encode) matches Some(left) && {
            &&& left.signature == codecs.signature
            &&& left.ram_encode == (if !vram && encode {
                Seq::empty()
            } else {
                codecs.ram_encode
            })
            &&& left.ram_decode == (if !vram && !encode {
                Seq::empty()
            } else {
                codecs.ram_decode
            })
            &&& left.vram_encode == (if vram && encode {
                Seq::empty()
            } else {
                codecs.vram_encode
            })
            &&& left.vram_decode == (if vram && !encode {
                Seq::empty()
            } else {
                codecs.vram_decode
            })
        },
        cleared(cleared(Some(codecs), vram, encode), vram, encode) == cleared(
            Some(codecs),
            vram,
            encode,
        ),
        cleared(None::<Codecs<E, D>>, vram, encode) is None,
{
}

/// The list that a check makes.
pub fn check_available_hwcodec<E, D>(
    ram_encode: Vec<CodecInfo>,
    ram_decode: Vec<CodecInfo>,
    vram_encode: Vec<E>,
    vram_decode: Vec<D>,
    signature: u64,
) -> (config: HwCodecConfig<E, D>)
    ensures
        config == (HwCodecConfig { signature, ram_encode, ram_decode, vram_encode, vram_decode }),
{
    HwCodecConfig { signature, ram_encode, ram_decode, vram_encode, vram_decode }
}

/// Whether a check process was ever started.
#[derive(Clone, Copy, PartialEq, Eq, Debug, Structural)]
pub struct CheckState {
    pub started: bool,
}

impl CheckState {
    /// None was started yet.
    pub fn new() -> (state: CheckState)
        ensures
            !state.started,
    {
        CheckState { started: false }
    }
}

/// A moment at which a check process is asked for.
pub struct CheckCall {
    /// Hardware codecs are wanted.
    pub enabled: bool,
    /// A list was handed over already.
    pub already_set: bool,
}

/// The call starts a check process.
pub open spec fn starts(started: bool, call: CheckCall) -> bool {
    call.enabled && !call.already_set && !started
}

/// Decides whether a check process is started: it is if hardware codecs are
/// wanted, no list was handed over and none was started before.
pub fn start_check_process<E, D>(
    checks: &mut CheckState,
    enabled: bool,
    state: &ConfigState<E, D>,
) -> (start: bool)
    ensures
        start == starts(
            old(checks).started,
            (CheckCall { enabled, already_set: state.set_by_ipc }),
        ),
        final(checks).started == (old(checks).started || start),
{
    if !enabled || HwCodecConfig::already_set(state) || checks.started {
        return false;
    }
    checks.started = true;
    true
}

/// Whether one of the calls, one after the other, has started a check process.
pub open spec fn has_started(calls: Seq<CheckCall>) -> bool
    decreases calls.len(),
{
    calls.len() > 0 && (has_started(calls.drop_last()) || starts(
        has_started(calls.drop_last()),
        calls.last(),
    ))
}

/// How many check processes the calls start, one after the other.
pub open spec fn started_count(calls: Seq<CheckCall>) -> nat
    decreases calls.len(),
{
    if calls.len() == 0 {
        0
    } else {
        started_count(calls.drop_last()) + if starts(has_started(calls.drop_last()), calls.last()) {
            1nat
        } else {
            0nat
        }
    }
}

/// However often a check process is asked for, at most one is started, and one is
/// exactly if some call finds hardware codecs wanted and no list handed over.
pub proof fn law_at_most_one_check_process(calls: Seq<CheckCall>)
    ensures
        started_count(calls) <= 1,
        started_count(calls) == 1 <==> has_started(calls),
        has_started(calls) <==> exists|i: int|
            0 <= i < calls.len() && (#[trigger] calls[i]).enabled && !calls[i].already_set,
    decreases calls.len(),
{
    if calls.len() > 0 {
        let head = calls.drop_last();
        law_at_most_one_check_process(head);
        if exists|i: int|
            0 <= i < calls.len() && (#[trigger] calls[i]).enabled && !calls[i].already_set {
            let i = choose|i: int|
                0 <= i < calls.len() && (#[trigger] calls[i]).enabled && !calls[i].already_set;
            if i < head.len() {
                assert(head[i] == calls[i]);
            }
        }
        if has_started(calls) {
            if has_started(head) {
                let i = choose|i: int|
                    0 <= i < head.len() && (#[trigger] head[i]).enabled && !head[i].already_set;
                assert(calls[i] == head[i]);
            } else {
                assert(calls[calls.len() - 1] == calls.last());
            }
        }
    }
}

/// The command line of a check process: this program with one argument.
pub fn check_command() -> (command: Vec<CommandPart>)
    ensures
        forall|executable: Seq<char>| #[trigger]
            helper::spelled(command@, executable) == seq![executable, "--check-hwcodec-config"@],
{
    let mut command: Vec<CommandPart> = Vec::new();
    command.push(CommandPart::Executable);
    command.push(CommandPart::Text("--check-hwcodec-config".to_owned()));
    assert forall|executable: Seq<char>| #[trigger]
        helper::spelled(command@, executable) == seq![executable, "--check-hwcodec-config"@] by {
        assert(helper::spelled(command@, executable) =~= seq![
            executable,
            "--check-hwcodec-config"@,
        ]);
    }
    command
}

/// How many looks, a second apart, a check process is given.
pub const CHECK_LOOKS: u32 = 30;

/// What follows the looks at a check process.
#[derive(Clone, Copy, PartialEq, Eq, Debug, Structural)]
pub enum CheckStep {
    /// Look after so many milliseconds.
    LookAfter(u64),
    /// Kill it, whether it exited or not, and look once more after so many
    /// milliseconds.
    Kill(u64),
}

pub open spec fn step_after(looks: u32, exited: bool) -> CheckStep {
    if looks >= CHECK_LOOKS || (looks > 0 && exited) {
        CheckStep::Kill(30)
    } else {
        CheckStep::LookAfter(1000)
    }
}

/// Decides what follows after so many looks, the last of which found that the
/// process exited or not.
pub fn check_step(looks: u32, exited: bool) -> (step: CheckStep)
    ensures
        step == step_after(looks, exited),
{
    if looks >= CHECK_LOOKS || (looks > 0 && exited) {
        CheckStep::Kill(30)
    } else {
        CheckStep::LookAfter(1000)
    }
}

/// How many looks there are in all after so many, where `exited` tells what each
/// look finds.
pub open spec fn looks_in_all(exited: spec_fn(int) -> bool, looks: u32) -> int
    decreases CHECK_LOOKS - looks,
{
    if step_after(looks, exited(looks as int)) is Kill {
        looks as int
    } else {
        looks_in_all(exited, (looks + 1) as u32)
    }
}

proof fn lemma_looks_in_all(exited: spec_fn(int) -> bool, looks: u32)
    requires
        looks <= CHECK_LOOKS,
    ensures
        looks <= looks_in_all(exited, looks) <= CHECK_LOOKS,
        looks_in_all(exited, looks) < CHECK_LOOKS ==> looks_in_all(exited, looks) > 0 && exited(
            looks_in_all(exited, looks),
        ),
        forall|k: int|
            looks <= k < looks_in_all(exited, looks) && k > 0 ==> !(#[trigger] exited(k)),
    decreases CHECK_LOOKS - looks,
{
    if !(step_after(looks, exited(looks as int)) is Kill) {
        lemma_looks_in_all(exited, (looks + 1) as u32);
    }
}

/// A check process is looked at until a look finds that it exited, and at most so
/// many times; one that is still running then is killed.
pub proof fn law_check_process_is_given_its_time(exited: spec_fn(int) -> bool)
    ensures
        1 <= looks_in_all(exited, 0) <= CHECK_LOOKS,
        looks_in_all(exited, 0) < CHECK_LOOKS ==> exited(looks_in_all(exited, 0)),
        forall|k: int| 0 < k < looks_in_all(exited, 0) ==> !(#[trigger] exited(k)),
        (forall|k: int| 0 < k <= CHECK_LOOKS ==> !(#[trigger] exited(k))) ==> looks_in_all(
            exited,
            0,
        ) == CHECK_LOOKS,
{
    lemma_looks_in_all(exited, 0);
}

/// A killed check process is waited for if it could be looked at and had not
/// exited yet.
pub fn must_wait(exited: Option<bool>) -> (wait: bool)
    ensures
        wait == (exited == Some(false)),
{
    match exited {
        Some(exited) => !exited,
        None => false,
    }
}

/// A codec that can be used for a format is a hardware encoder that takes NV12 and is
/// listed under the format's own type.
pub proof fn law_eligible_codecs(codec: MediaCodecInfo, format: DataFormat)
    ensures
        is_eligible(codec, format) <==> {
            &&& codec.is_encoder
            &&& codec.nv12
            &&& codec.hw == Some(true)
            &&& format == DataFormat::H264 ==> codec.mime_type@ == "video/avc"@
            &&& format == DataFormat::H265 ==> codec.mime_type@ == "video/hevc"@
            &&& format == DataFormat::AV1 ==> codec.mime_type@ == "video/av01"@
            &&& format == DataFormat::VP8 ==> codec.mime_type@ == "video/x-vnd.on2.vp8"@
            &&& format == DataFormat::VP9 ==> codec.mime_type@ == "video/x-vnd.on2.vp9"@
        },
{
}

/// The codec that is used for a format can be used for it. If any such codec takes the
/// screen however it is turned, the used one does too, and is the first that does; if
/// none does, none covers a larger area, and it is the first of that area.
pub proof fn law_best_codec_takes_the_screen(
    infos: MediaCodecInfos,
    format: DataFormat,
    i: int,
    j: int,
)
    requires
        is_best(infos, format, i),
        0 <= j < infos.codecs@.len(),
        is_eligible(infos.codecs@[j], format),
    ensures
        0 <= i < infos.codecs@.len(),
        is_eligible(infos.codecs@[i], format),
        ({
            let used = infos.codecs@[i];
            let other = infos.codecs@[j];
            let fits = used.max_width >= infos.w && used.max_width >= infos.h && used.max_height
                >= infos.w && used.max_height >= infos.h;
            let other_fits = other.max_width >= infos.w && other.max_width >= infos.h
                && other.max_height >= infos.w && other.max_height >= infos.h;
            &&& other_fits ==> fits && i <= j
            &&& !fits ==> other.max_width * other.max_height <= used.max_width * used.max_height
            &&& !fits && other.max_width * other.max_height == used.max_width * used.max_height
                ==> i <= j
        }),
{
    assert(takes_screen(infos.codecs@[j], infos) || !takes_screen(infos.codecs@[j], infos));
    if !some_takes_screen(infos, format) {
        assert(is_eligible(infos.codecs@[i], format));
        assert(!takes_screen(infos.codecs@[i], infos));
    }
}

/// There is no codec for a format only if none that could be used for it covers any
/// area or takes the screen.
pub proof fn law_no_codec_is_passed_over(infos: MediaCodecInfos, format: DataFormat, j: int)
    requires
        has_none(infos, format),
        0 <= j < infos.codecs@.len(),
        is_eligible(infos.codecs@[j], format),
    ensures
        infos.codecs@[j].max_width * infos.codecs@[j].max_height == 0,
        infos.codecs@[j].max_width < infos.w || infos.codecs@[j].max_width < infos.h
            || infos.codecs@[j].max_height < infos.w || infos.codecs@[j].max_height < infos.h,
{
    assert(max_area(infos.codecs@[j]) == 0);
    assert(!takes_screen(infos.codecs@[j], infos));
}

/// The encoders that the system's codecs give are one of H.264 and one of H.265, in
/// this order, each exactly if there is a codec for it. Each goes by a name of its own,
/// names the codec that is used, and runs on no particular device.
pub proof fn law_system_codecs_give_encoders(encoders: Seq<CodecInfo>, infos: MediaCodecInfos)
    requires
        are_media_encoders(encoders, infos),
    ensures
        (exists|k: int|
            0 <= k < encoders.len() && (#[trigger] encoders[k]).format == DataFormat::H264)
            <==> !has_none(infos, DataFormat::H264),
        (exists|k: int|
            0 <= k < encoders.len() && (#[trigger] encoders[k]).format == DataFormat::H265)
            <==> !has_none(infos, DataFormat::H265),
        forall|k: int|
            0 <= k < encoders.len() ==> {
                let encoder = #[trigger] encoders[k];
                &&& encoder.format == DataFormat::H264 || encoder.format == DataFormat::H265
                &&& encoder.format == DataFormat::H264 ==> k == 0 && encoder.name@
                    == "h264"@ + "_mediacodec"@
                &&& encoder.format == DataFormat::H265 ==> k == encoders.len() - 1 && encoder.name@
                    == "hevc"@ + "_mediacodec"@
                &&& encoder.priority == 0
                &&& encoder.hwdevice == 0
                &&& encoder.mc_name matches Some(name) && exists|i: int| #[trigger]
                    is_best(infos, encoder.format, i) && infos.codecs@[i].name == name
            },
{
    if !has_none(infos, DataFormat::H264) {
        assert(encoders[0].format == DataFormat::H264);
        if !has_none(infos, DataFormat::H265) {
            assert(encoders[1].format == DataFormat::H265);
        }
    } else if !has_none(infos, DataFormat::H265) {
        assert(encoders[0].format == DataFormat::H265);
    }
}

/// A list that is known stays: no stored list takes its place, and it is what is handed
/// out wherever a list may be known.
pub proof fn law_known_list_stays<E, D>(
    before: ConfigState<E, D>,
    after: ConfigState<E, D>,
    source: ConfigSource<E, D>,
    config: HwCodecConfig<E, D>,
    known: Codecs<E, D>,
)
    requires
        is_list_of(before, after, source, config),
        before.codecs() == Some(known),
    ensures
        after.codecs() == Some(known),
        after.set_by_ipc == before.set_by_ipc,
        source is Stored || source is HandedOver ==> config@ == known,
{
}

/// A stored list counts only on the machine that it was made on: there it is known from
/// then on, elsewhere there is nothing, and nothing is known.
pub proof fn law_stored_list_is_of_this_machine<E, D>(
    before: ConfigState<E, D>,
    after: ConfigState<E, D>,
    stored: HwCodecConfig<E, D>,
    signature: u64,
    config: HwCodecConfig<E, D>,
)
    requires
        is_list_of(before, after, ConfigSource::Stored { config: stored, signature }, config),
        before.codecs() is None,
    ensures
        after.set_by_ipc == before.set_by_ipc,
        stored.signature == signature ==> after.codecs() == Some(stored@) && config@ == stored@,
        stored.signature != signature ==> after.codecs() is None && config@.ram_encode.len() == 0
            && config@.ram_decode.len() == 0 && config@.vram_encode.len() == 0
            && config@.vram_decode.len() == 0 && config@.signature == 0,
{
}

/// Where nothing is known and nothing is stored, there are no codecs; on a system
/// without any there never are. Asking changes nothing.
pub proof fn law_no_list_is_made_up<E, D>(
    before: ConfigState<E, D>,
    after: ConfigState<E, D>,
    source: ConfigSource<E, D>,
    config: HwCodecConfig<E, D>,
)
    requires
        is_list_of(before, after, source, config),
        !(source is Stored),
    ensures
        after.codecs() == before.codecs(),
        after.set_by_ipc == before.set_by_ipc,
        source is Ios || source == ConfigSource::<E, D>::Android(None) || (source is HandedOver
            && before.codecs() is None) ==> config@.ram_encode.len() == 0
            && config@.ram_decode.len() == 0 && config@.vram_encode.len() == 0
            && config@.vram_decode.len() == 0,
        source matches ConfigSource::Android(Some(infos)) ==> are_media_encoders(
            config@.ram_encode,
            *infos,
        ) && config@.ram_decode.len() == 0 && config@.vram_encode.len() == 0
            && config@.vram_decode.len() == 0,
{
}

/// A list that was handed over takes the place of what was known, and is handed on as
/// it is; one that could not be read leaves an empty list, which counts as handed over
/// too.
pub proof fn law_handed_over_list_replaces<E, D>(
    after: ConfigState<E, D>,
    config: Option<HwCodecConfig<E, D>>,
)
    requires
        takes_over(after, config),
    ensures
        after.set_by_ipc,
        after.handed_over() == after.codecs(),
        config matches Some(config) ==> after.handed_over() == Some(config@),
        config is None ==> (after.handed_over() matches Some(empty) && empty.ram_encode.len() == 0
            && empty.ram_decode.len() == 0 && empty.vram_encode.len() == 0
            && empty.vram_decode.len() == 0 && empty.signature == 0),
{
}

/// A list that was not handed over is not handed on, however much is known.
pub proof fn law_only_handed_over_lists_are_handed_on<E, D>(state: ConfigState<E, D>)
    ensures
        !state.set_by_ipc ==> state.handed_over() is None,
        state.set_by_ipc ==> state.handed_over() == state.codecs(),
{
}

/// A check process is looked at once a second; it is killed, and looked at once more
/// soon after, when it has exited or has had its thirty looks.
pub proof fn law_check_process_is_looked_at_every_second(looks: u32, exited: bool)
    ensures
        step_after(looks, exited) == CheckStep::LookAfter(1000) <==> looks < 30 && (looks == 0
            || !exited),
        step_after(looks, exited) == CheckStep::Kill(30) <==> looks >= 30 || (looks > 0 && exited),
{
}

/// What is known of the codecs is what the lists hold.
pub proof fn law_codecs_are_what_the_lists_hold<E, D>(state: ConfigState<E, D>)
    ensures
        state.config is None <==> state.codecs() is None,
        state.config matches Some(config) ==> (state.codecs() matches Some(codecs)
            && codecs.signature == config.signature && codecs.ram_encode == config.ram_encode@
            && codecs.ram_decode == config.ram_decode@ && codecs.vram_encode == config.vram_encode@
            && codecs.vram_decode == config.vram_decode@),
{
}

} // verus!
