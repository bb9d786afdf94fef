//! Converting decoded and downloaded frames to pixels: which conversions are
//! made, and where the pixels go. The conversions themselves are made elsewhere.

use crate::ancillary;
use crate::error::{Error, ErrorKind, Failure};
use crate::hwcodec::{AVPixelFormat, DecodeFrame, HwDmabufEncoder, HwRamDecoderImage};
use crate::text;
use vstd::arithmetic::power2;
use vstd::prelude::*;

verus! {

#[derive(Clone, Copy, PartialEq, Eq, Debug, Structural)]
pub enum ImageFormat {
    Raw,
    ABGR,
    ARGB,
}

/// Pixels of four bytes each, in rows whose length is aligned.
#[derive(Debug)]
pub struct ImageRgb {
    pub raw: Vec<u8>,
    pub w: usize,
    pub h: usize,
    pub fmt: ImageFormat,
    pub align: usize,
}

/// The conversions, by the formats from which and to which they go.
#[allow(non_camel_case_types)]
#[derive(Clone, Copy, PartialEq, Eq, Debug, Structural)]
pub enum YuvFunction {
    NV12ToARGB,
    NV12ToABGR,
    I420ToARGB,
    I420ToABGR,
    NV12ToI420,
}

/// One conversion with the rows of its source and of its target.
#[derive(Debug)]
pub struct Conversion {
    pub function: YuvFunction,
    pub source_strides: Vec<i32>,
    pub target_strides: Vec<i32>,
    pub width: i32,
    pub height: i32,
}

/// The conversions to make one after the other, and what comes of them all if
/// none of them fails.
#[derive(Debug)]
pub struct Conversions {
    pub steps: Vec<Conversion>,
    /// Where the three planes in between lie in their buffer, if the conversions go
    /// over them: they are the target of the first conversion and the source of the
    /// second.
    pub planes: Option<(usize, usize, usize)>,
    pub result: Result<(), Error>,
}

/// The layout of a picture of three planes in one buffer.
#[derive(Debug)]
pub struct I420Layout {
    pub linesize: Vec<i32>,
    /// Where the second and the third plane begin.
    pub offset: Vec<i32>,
    pub length: i32,
}

impl I420Layout {
    /// Both planes behind the first begin within the buffer.
    pub open spec fn wf(self) -> bool {
        &&& self.length >= 0
        &&& self.linesize@.len() >= 3
        &&& self.offset@.len() >= 2
        &&& 0 <= self.offset@[0] <= self.length
        &&& 0 <= self.offset@[1] <= self.length
    }

    pub open spec fn starts(self) -> (usize, usize, usize) {
        (0, self.offset@[0] as usize, self.offset@[1] as usize)
    }

    /// Whether the planes behind the first begin within the buffer.
    pub fn is_sound(&self) -> (sound: bool)
        ensures
            sound == self.wf(),
    {
        self.length >= 0 && self.linesize.len() >= 3 && self.offset.len() >= 2 && self.offset[0]
            >= 0 && self.offset[0] <= self.length && self.offset[1] >= 0 && self.offset[1]
            <= self.length
    }

    /// Where the three planes begin.
    pub fn plane_starts(&self) -> (starts: (usize, usize, usize))
        requires
            self.wf(),
        ensures
            starts == self.starts(),
            starts.0 == 0,
            starts.1 == self.offset@[0] <= self.length,
            starts.2 == self.offset@[1] <= self.length,
    {
        (0, self.offset[0] as usize, self.offset[1] as usize)
    }
}

/// The length of a row of pixels of four bytes.
pub open spec fn row_len(width: int, align: usize) -> usize {
    ((width * 4 + align - 1) as usize) & !((align - 1) as usize)
}

/// A row holds its pixels, and no more than the alignment asks for.
pub proof fn law_row_holds_its_pixels(width: int, align: usize)
    requires
        0 <= width,
        0 < align,
        width * 4 + align - 1 <= usize::MAX,
    ensures
        width * 4 <= row_len(width, align) < width * 4 + align,
        row_len(width, align) & ((align - 1) as usize) == 0,
{
    let x = (width * 4 + align - 1) as usize;
    let m = (align - 1) as usize;
    assert((x & !m) + (x & m) == x) by (bit_vector);
    assert(x & m <= m) by (bit_vector);
    assert((x & !m) & m == 0) by (bit_vector);
}

/// Where the alignment is a power of two, a row is the least multiple of it that
/// holds the pixels.
pub proof fn law_row_is_rounded_up(width: int, align: usize, exponent: nat)
    requires
        0 <= width,
        align == power2::pow2(exponent),
        width * 4 + align - 1 <= usize::MAX,
    ensures
        row_len(width, align) == ancillary::rounded_up(width * 4, align as int),
{
    if exponent >= 64 {
        power2::lemma_pow2_adds(64, (exponent - 64) as nat);
        power2::lemma_pow2_pos((exponent - 64) as nat);
        power2::lemma2_to64_rest();
        assert(power2::pow2(exponent) >= power2::pow2(64)) by (nonlinear_arith)
            requires
                power2::pow2(exponent) == power2::pow2(64) * power2::pow2(
                    (exponent - 64) as nat,
                ),
                power2::pow2((exponent - 64) as nat) >= 1,
                power2::pow2(64) >= 0,
        ;
    }
    let x = (width * 4 + align - 1) as usize;
    let m = (align - 1) as usize;
    power2::lemma_pow2_pos(exponent);
    vstd::bits::lemma_u64_low_bits_mask_is_mod(x as u64, exponent);
    assert((x as u64) & (m as u64) == x % align);
    assert((x & !m) + (x & m) == x) by (bit_vector);
    assert(x & m == (x as u64) & (m as u64));
    vstd::arithmetic::div_mod::lemma_fundamental_div_mod(x as int, align as int);
    vstd::arithmetic::mul::lemma_mul_is_commutative(x as int / align as int, align as int);
}

/// `bytes` cut or filled with zeros to that length.
pub open spec fn resized(bytes: Seq<u8>, len: int) -> Seq<u8> {
    Seq::new(
        len as nat,
        |i: int|
            if i < bytes.len() {
                bytes[i]
            } else {
                0u8
            },
    )
}

fn resize(bytes: &mut Vec<u8>, len: usize)
    ensures
        final(bytes)@ == resized(old(bytes)@, len as int),
{
    bytes.resize(len, 0);
    assert(bytes@ =~= resized(old(bytes)@, len as int));
}

pub open spec fn pixfmt_text(pixfmt: AVPixelFormat) -> Seq<char> {
    match pixfmt {
        AVPixelFormat::AV_PIX_FMT_NV12 => "AV_PIX_FMT_NV12"@,
        AVPixelFormat::AV_PIX_FMT_YUV420P => "AV_PIX_FMT_YUV420P"@,
    }
}

fn pixfmt_name(pixfmt: AVPixelFormat) -> (name: &'static str)
    ensures
        name@ == pixfmt_text(pixfmt),
{
    match pixfmt {
        AVPixelFormat::AV_PIX_FMT_NV12 => "AV_PIX_FMT_NV12",
        AVPixelFormat::AV_PIX_FMT_YUV420P => "AV_PIX_FMT_YUV420P",
    }
}

pub open spec fn image_text(fmt: ImageFormat) -> Seq<char> {
    match fmt {
        ImageFormat::Raw => "Raw"@,
        ImageFormat::ABGR => "ABGR"@,
        ImageFormat::ARGB => "ARGB"@,
    }
}

fn image_name(fmt: ImageFormat) -> (name: &'static str)
    ensures
        name@ == image_text(fmt),
{
    match fmt {
        ImageFormat::Raw => "Raw",
        ImageFormat::ABGR => "ABGR",
        ImageFormat::ARGB => "ARGB",
    }
}

/// The conversion of two or three planes to pixels, if there is one.
pub open spec fn to_pixels(source: AVPixelFormat, fmt: ImageFormat) -> Option<YuvFunction> {
    match (source, fmt) {
        (AVPixelFormat::AV_PIX_FMT_NV12, ImageFormat::ARGB) => Some(YuvFunction::NV12ToARGB),
        (AVPixelFormat::AV_PIX_FMT_NV12, ImageFormat::ABGR) => Some(YuvFunction::NV12ToABGR),
        (AVPixelFormat::AV_PIX_FMT_YUV420P, ImageFormat::ARGB) => Some(YuvFunction::I420ToARGB),
        (AVPixelFormat::AV_PIX_FMT_YUV420P, ImageFormat::ABGR) => Some(YuvFunction::I420ToABGR),
        _ => None,
    }
}

fn pixels_function(source: AVPixelFormat, fmt: ImageFormat) -> (function: Option<YuvFunction>)
    ensures
        function == to_pixels(source, fmt),
{
    match (source, fmt) {
        (AVPixelFormat::AV_PIX_FMT_NV12, ImageFormat::ARGB) => Some(YuvFunction::NV12ToARGB),
        (AVPixelFormat::AV_PIX_FMT_NV12, ImageFormat::ABGR) => Some(YuvFunction::NV12ToABGR),
        (AVPixelFormat::AV_PIX_FMT_YUV420P, ImageFormat::ARGB) => Some(YuvFunction::I420ToARGB),
        (AVPixelFormat::AV_PIX_FMT_YUV420P, ImageFormat::ABGR) => Some(YuvFunction::I420ToABGR),
        _ => None,
    }
}

/// How many planes a frame has.
pub open spec fn plane_count(pixfmt: AVPixelFormat) -> int {
    match pixfmt {
        AVPixelFormat::AV_PIX_FMT_NV12 => 2,
        AVPixelFormat::AV_PIX_FMT_YUV420P => 3,
    }
}

pub open spec fn unsupported_conversion(pixfmt: AVPixelFormat, fmt: ImageFormat) -> Failure {
    Failure::of(
        ErrorKind::Other,
        "unsupported format: "@ + pixfmt_text(pixfmt) + " -> "@ + image_text(fmt),
    )
}

fn unsupported_conversion_error(pixfmt: AVPixelFormat, fmt: ImageFormat) -> (err: Error)
    ensures
        err@ == unsupported_conversion(pixfmt, fmt),
{
    let message = text::join4(
        "unsupported format: ",
        pixfmt_name(pixfmt),
        " -> ",
        image_name(fmt),
    );
    Error::with_message(ErrorKind::Other, message)
}

pub open spec fn fails_with(result: Result<(), Error>, failure: Failure) -> bool {
    result matches Err(err) && err@ == failure
}

/// The conversion has those rows and the size of the frame.
pub open spec fn is_conversion(
    step: Conversion,
    function: YuvFunction,
    source: Seq<i32>,
    target: Seq<i32>,
    frame: DecodeFrame,
) -> bool {
    &&& step.function == function
    &&& step.source_strides@ == source
    &&& step.target_strides@ == target
    &&& step.width == frame.width
    &&& step.height == frame.height
}

fn first_rows(linesize: &Vec<i32>, count: usize) -> (rows: Vec<i32>)
    requires
        count <= linesize@.len(),
    ensures
        rows@ == linesize@.take(count as int),
{
    let mut rows: Vec<i32> = Vec::new();
    for i in 0..count
        invariant
            count <= linesize@.len(),
            rows@ == linesize@.take(i as int),
    {
        rows.push(linesize[i]);
        assert(rows@ =~= linesize@.take(i + 1));
    }
    rows
}

/// A frame is first brought to three planes where that is the faster way.
pub open spec fn goes_over_i420(frame: DecodeFrame, over_i420: bool) -> bool {
    over_i420 && frame.pixfmt == AVPixelFormat::AV_PIX_FMT_NV12
}

impl HwRamDecoderImage<'_> {
    /// The planes of the frame and of the three between are there, as far as a
    /// conversion reads them.
    pub open spec fn has_planes(
        self,
        fmt: ImageFormat,
        over_i420: bool,
        layout: Option<&I420Layout>,
    ) -> bool {
        let frame = *self.frame;
        let reads = if goes_over_i420(frame, over_i420) {
            layout is Some
        } else {
            to_pixels(frame.pixfmt, fmt) is Some
        };
        &&& reads ==> frame.data@.len() >= plane_count(frame.pixfmt) && frame.linesize@.len()
            >= plane_count(frame.pixfmt)
        &&& goes_over_i420(frame, over_i420) ==> match layout {
            Some(layout) => layout.wf(),
            None => true,
        }
    }

    /// The pixels fit into memory.
    pub open spec fn fits(self, align: usize) -> bool {
        let frame = *self.frame;
        &&& 0 <= frame.width
        &&& 0 <= frame.height
        &&& 0 < align
        &&& frame.width * 4 + align - 1 <= usize::MAX
        &&& frame.height * row_len(frame.width as int, align) <= isize::MAX
    }

    /// Whether the frame can be converted, or the conversion be refused, without
    /// reading planes that are not there or making a picture that does not fit.
    pub fn can_convert(
        &self,
        fmt: ImageFormat,
        align: usize,
        over_i420: bool,
        layout: Option<&I420Layout>,
    ) -> (can: bool)
        ensures
            can == (self.fits(align) && self.has_planes(fmt, over_i420, layout)),
    {
        let frame = self.frame;
        if frame.width < 0 || frame.height < 0 || align == 0 {
            return false;
        }
        if frame.width as u128 * 4 + (align as u128 - 1) > usize::MAX as u128 {
            return false;
        }
        let row: usize = (frame.width as usize * 4 + (align - 1)) & !(align - 1);
        assert(row == row_len(frame.width as int, align));
        assert(0 <= frame.height * row <= 0x7fff_ffff * 0xffff_ffff_ffff_ffff) by (nonlinear_arith)
            requires
                0 <= frame.height <= 0x7fff_ffff,
                0 <= row <= 0xffff_ffff_ffff_ffff,
        ;
        if frame.height as u128 * row as u128 > isize::MAX as u128 {
            return false;
        }
        let nv12 = frame.pixfmt == AVPixelFormat::AV_PIX_FMT_NV12;
        let count: usize = if nv12 {
            2
        } else {
            3
        };
        let reads = if nv12 && over_i420 {
            match layout {
                Some(layout) => {
                    if !layout.is_sound() {
                        return false;
                    }
                    true
                },
                None => false,
            }
        } else {
            pixels_function(frame.pixfmt, fmt).is_some()
        };
        !reads || (frame.data.len() >= count && frame.linesize.len() >= count)
    }

    /// The conversions of the frame to the pixels of `rgb` are prepared.
    pub open spec fn prepares(
        self,
        rgb: ImageRgb,
        rgb_after: ImageRgb,
        i420: Seq<u8>,
        i420_after: Seq<u8>,
        over_i420: bool,
        layout: Option<&I420Layout>,
        conversions: Conversions,
    ) -> bool {
        &&& rgb_after.w == self.frame.width
        &&& rgb_after.h == self.frame.height
        &&& rgb_after.fmt == rgb.fmt
        &&& rgb_after.align == rgb.align
        &&& rgb_after.raw@ == resized(
            rgb.raw@,
            self.frame.height * row_len(self.frame.width as int, rgb.align),
        )
        &&& ({
            let frame = *self.frame;
            let fmt = rgb.fmt;
            let row = seq![row_len(frame.width as int, rgb.align) as i32];
            let steps = conversions.steps@;
            if !goes_over_i420(frame, over_i420) {
                &&& i420_after == i420
                &&& conversions.planes is None
                &&& match to_pixels(frame.pixfmt, fmt) {
                    Some(function) => conversions.result is Ok && steps.len() == 1
                        && is_conversion(
                        steps[0],
                        function,
                        frame.linesize@.take(plane_count(frame.pixfmt)),
                        row,
                        frame,
                    ),
                    None => steps.len() == 0 && fails_with(
                        conversions.result,
                        unsupported_conversion(frame.pixfmt, fmt),
                    ),
                }
            } else {
                match layout {
                    Some(layout) => {
                        &&& i420_after == resized(i420, layout.length as int)
                        &&& conversions.planes == Some(layout.starts())
                        &&& steps.len() >= 1
                        &&& is_conversion(
                            steps[0],
                            YuvFunction::NV12ToI420,
                            frame.linesize@.take(2),
                            layout.linesize@.take(3),
                            frame,
                        )
                        &&& match to_pixels(AVPixelFormat::AV_PIX_FMT_YUV420P, fmt) {
                            Some(function) => conversions.result is Ok && steps.len() == 2
                                && is_conversion(
                                steps[1],
                                function,
                                layout.linesize@.take(3),
                                row,
                                frame,
                            ),
                            None => steps.len() == 1 && fails_with(
                                conversions.result,
                                unsupported_conversion(frame.pixfmt, fmt),
                            ),
                        }
                    },
                    None => i420_after == i420 && steps.len() == 0
                        && conversions.planes is None && fails_with(
                        conversions.result,
                        Failure::of(ErrorKind::Other, "failed to get i420 linesize, offset, length"@),
                    ),
                }
            }
        })
    }

    /// Prepares to convert the frame to the pixels of `rgb`, whose format and
    /// alignment are given. With `over_i420`, a frame of two planes is converted
    /// over `i420`, whose layout is missing where it could not be told.
    pub fn to_fmt(
        &self,
        rgb: &mut ImageRgb,
        i420: &mut Vec<u8>,
        over_i420: bool,
        layout: Option<&I420Layout>,
    ) -> (conversions: Conversions)
        requires
            self.fits(old(rgb).align),
            self.has_planes(old(rgb).fmt, over_i420, layout),
        ensures
            self.prepares(
                *old(rgb),
                *final(rgb),
                old(i420)@,
                final(i420)@,
                over_i420,
                layout,
                conversions,
            ),
    {
        let frame = self.frame;
        let width: i32 = frame.width;
        let height: i32 = frame.height;
        rgb.w = width as usize;
        rgb.h = height as usize;
        let align: usize = rgb.align;
        let bytes_per_row: usize = (rgb.w * 4 + (align - 1)) & !(align - 1);
        assert(bytes_per_row == row_len(frame.width as int, align));
        assert(0 <= frame.height * bytes_per_row) by (nonlinear_arith)
            requires
                0 <= frame.height,
                0 <= bytes_per_row,
        ;
        let len: usize = rgb.h * bytes_per_row;
        resize(&mut rgb.raw, len);
        let fmt = rgb.fmt;
        let mut steps: Vec<Conversion> = Vec::new();
        let mut row: Vec<i32> = Vec::new();
        row.push(bytes_per_row as i32);
        let nv12 = frame.pixfmt == AVPixelFormat::AV_PIX_FMT_NV12;
        if nv12 && over_i420 {
            let layout = match layout {
                Some(layout) => layout,
                None => {
                    return Conversions {
                        steps,
                        planes: None,
                        result: Err(Error::other("failed to get i420 linesize, offset, length")),
                    };
                },
            };
            resize(i420, layout.length as usize);
            let planes = Some(layout.plane_starts());
            steps.push(
                Conversion {
                    function: YuvFunction::NV12ToI420,
                    source_strides: first_rows(&frame.linesize, 2),
                    target_strides: first_rows(&layout.linesize, 3),
                    width,
                    height,
                },
            );
            return match pixels_function(AVPixelFormat::AV_PIX_FMT_YUV420P, fmt) {
                Some(function) => {
                    steps.push(
                        Conversion {
                            function,
                            source_strides: first_rows(&layout.linesize, 3),
                            target_strides: row,
                            width,
                            height,
                        },
                    );
                    Conversions { steps, planes, result: Ok(()) }
                },
                None => Conversions {
                    steps,
                    planes,
                    result: Err(unsupported_conversion_error(frame.pixfmt, fmt)),
                },
            };
        }
        match pixels_function(frame.pixfmt, fmt) {
            Some(function) => {
                let count: usize = if nv12 {
                    2
                } else {
                    3
                };
                steps.push(
                    Conversion {
                        function,
                        source_strides: first_rows(&frame.linesize, count),
                        target_strides: row,
                        width,
                        height,
                    },
                );
                Conversions { steps, planes: None, result: Ok(()) }
            },
            None => Conversions {
                steps,
                planes: None,
                result: Err(unsupported_conversion_error(frame.pixfmt, fmt)),
            },
        }
    }
}

/// Where the pixels of a downloaded frame go, and the conversion that brings
/// them there.
#[derive(Debug)]
pub struct RgbaTarget {
    pub width: usize,
    pub height: usize,
    pub len: usize,
    pub conversion: Conversion,
}

/// The frame is one of two planes with a size.
pub open spec fn is_downloaded(frame: DecodeFrame) -> bool {
    &&& frame.pixfmt == AVPixelFormat::AV_PIX_FMT_NV12
    &&& frame.width > 0
    &&& frame.height > 0
    &&& frame.data@.len() >= 2
    &&& frame.linesize@.len() >= 2
}

/// The bytes of the first plane, one for each pixel.
pub open spec fn y_size(frame: DecodeFrame) -> int {
    frame.linesize@[0] * frame.height
}

/// The bytes of the second plane, two for each square of four pixels.
pub open spec fn uv_size(frame: DecodeFrame) -> int {
    frame.linesize@[1] * ((frame.height + 1) / 2)
}

/// The planes hold at least what their rows and the size ask for.
pub open spec fn planes_suffice(frame: DecodeFrame) -> bool {
    &&& frame.linesize@[0] >= frame.width
    &&& frame.linesize@[1] >= frame.width
    &&& frame.data@[0]@.len() >= y_size(frame)
    &&& frame.data@[1]@.len() >= uv_size(frame)
}

/// Why a downloaded frame cannot be converted, the first reason first.
pub open spec fn download_refusal(frame: DecodeFrame) -> Option<Seq<char>> {
    if !is_downloaded(frame) {
        Some(
            "invalid downloaded dmabuf frame: format="@ + pixfmt_text(frame.pixfmt) + ", size="@
                + text::signed_decimal(frame.width as int) + "x"@ + text::signed_decimal(
                frame.height as int,
            ) + ", planes="@ + text::decimal(frame.data@.len()),
        )
    } else if frame.linesize@[0] < 0 {
        Some("invalid downloaded dmabuf Y stride"@)
    } else if frame.linesize@[1] < 0 {
        Some("invalid downloaded dmabuf UV stride"@)
    } else if y_size(frame) > usize::MAX {
        Some("downloaded dmabuf Y plane size overflow"@)
    } else if uv_size(frame) > usize::MAX {
        Some("downloaded dmabuf UV plane size overflow"@)
    } else if !planes_suffice(frame) {
        Some("downloaded dmabuf plane is smaller than its declared layout"@)
    } else if frame.width * 4 > usize::MAX {
        Some("downloaded dmabuf RGBA stride overflow"@)
    } else if frame.width * 4 * frame.height > usize::MAX {
        Some("downloaded dmabuf RGBA size overflow"@)
    } else if frame.width * 4 > i32::MAX {
        Some("downloaded dmabuf RGBA stride overflow"@)
    } else {
        None
    }
}

/// The pixels go into rows of four bytes for each pixel, without gaps.
pub open spec fn is_rgba_target(target: RgbaTarget, frame: DecodeFrame) -> bool {
    &&& target.width == frame.width
    &&& target.height == frame.height
    &&& target.len == frame.width * 4 * frame.height
    &&& is_conversion(
        target.conversion,
        YuvFunction::NV12ToABGR,
        frame.linesize@.take(2),
        seq![(frame.width * 4) as i32],
        frame,
    )
}

fn invalid_download(frame: &DecodeFrame) -> (err: Error)
    requires
        !is_downloaded(*frame),
    ensures
        err@ == Failure::of(ErrorKind::Other, download_refusal(*frame).unwrap()),
        download_refusal(*frame) is Some,
{
    let width = text::write_signed_decimal(frame.width as i64);
    let height = text::write_signed_decimal(frame.height as i64);
    let planes = text::write_decimal(frame.data.len() as u64);
    let size = text::join4(
        "invalid downloaded dmabuf frame: format=",
        pixfmt_name(frame.pixfmt),
        ", size=",
        width.as_str(),
    );
    let size = text::join3(size.as_str(), "x", height.as_str());
    let message = text::join3(size.as_str(), ", planes=", planes.as_str());
    Error::with_message(ErrorKind::Other, message)
}

/// Prepares to convert a downloaded frame to pixels of red, green, blue and
/// alpha, in rows without gaps.
pub fn downloaded_nv12_to_rgba(downloaded: &DecodeFrame) -> (target: Result<RgbaTarget, Error>)
    ensures
        match target {
            Ok(target) => download_refusal(*downloaded) is None && is_rgba_target(
                target,
                *downloaded,
            ),
            Err(err) => download_refusal(*downloaded) matches Some(refusal) && err@ == Failure::of(
                ErrorKind::Other,
                refusal,
            ),
        },
{
    let nv12 = downloaded.pixfmt == AVPixelFormat::AV_PIX_FMT_NV12;
    if !nv12 || downloaded.width <= 0 || downloaded.height <= 0 || downloaded.data.len() < 2
        || downloaded.linesize.len() < 2 {
        return Err(invalid_download(downloaded));
    }
    let width: usize = downloaded.width as usize;
    let height: usize = downloaded.height as usize;
    if downloaded.linesize[0] < 0 {
        return Err(Error::other("invalid downloaded dmabuf Y stride"));
    }
    if downloaded.linesize[1] < 0 {
        return Err(Error::other("invalid downloaded dmabuf UV stride"));
    }
    let y_stride: usize = downloaded.linesize[0] as usize;
    let uv_stride: usize = downloaded.linesize[1] as usize;
    let y_len: usize = match y_stride.checked_mul(height) {
        Some(len) => len,
        None => {
            return Err(Error::other("downloaded dmabuf Y plane size overflow"));
        },
    };
    let uv_len: usize = match uv_stride.checked_mul((height + 1) / 2) {
        Some(len) => len,
        None => {
            return Err(Error::other("downloaded dmabuf UV plane size overflow"));
        },
    };
    if y_stride < width || uv_stride < width || downloaded.data[0].len() < y_len
        || downloaded.data[1].len() < uv_len {
        return Err(Error::other("downloaded dmabuf plane is smaller than its declared layout"));
    }
    let rgba_stride: usize = match width.checked_mul(4) {
        Some(stride) => stride,
        None => {
            return Err(Error::other("downloaded dmabuf RGBA stride overflow"));
        },
    };
    let len: usize = match rgba_stride.checked_mul(height) {
        Some(len) => len,
        None => {
            return Err(Error::other("downloaded dmabuf RGBA size overflow"));
        },
    };
    if rgba_stride > i32::MAX as usize {
        return Err(Error::other("downloaded dmabuf RGBA stride overflow"));
    }
    let mut row: Vec<i32> = Vec::new();
    row.push(rgba_stride as i32);
    Ok(
        RgbaTarget {
            width,
            height,
            len,
            conversion: Conversion {
                function: YuvFunction::NV12ToABGR,
                source_strides: first_rows(&downloaded.linesize, 2),
                target_strides: row,
                width: downloaded.width,
                height: downloaded.height,
            },
        },
    )
}

impl HwDmabufEncoder {
    /// Prepares to convert what came of downloading an exported frame.
    pub fn download_rgba(&self, downloaded: &Result<DecodeFrame, String>) -> (target: Result<
        RgbaTarget,
        Error,
    >)
        ensures
            match *downloaded {
                Ok(frame) => match target {
                    Ok(target) => download_refusal(frame) is None && is_rgba_target(target, frame),
                    Err(err) => download_refusal(frame) matches Some(refusal) && err@
                        == Failure::of(ErrorKind::Other, refusal),
                },
                Err(reason) => target matches Err(err) && err@ == Failure::of(
                    ErrorKind::Other,
                    "Failed to download dmabuf: "@ + reason@,
                ),
            },
    {
        match downloaded {
            Ok(frame) => downloaded_nv12_to_rgba(frame),
            Err(reason) => Err(
                Error::with_detail(
                    ErrorKind::Other,
                    "Failed to download dmabuf: ",
                    reason.as_str(),
                ),
            ),
        }
    }
}

/// A frame whose planes are as large as its rows and size ask for, and whose
/// pixels fit, is converted.
pub proof fn law_sound_download_is_converted(frame: DecodeFrame)
    requires
        is_downloaded(frame),
        planes_suffice(frame),
        frame.width * 4 <= i32::MAX,
        frame.width * 4 * frame.height <= usize::MAX,
        y_size(frame) <= usize::MAX,
        uv_size(frame) <= usize::MAX,
    ensures
        download_refusal(frame) is None,
{
}

/// Cutting or filling gives exactly the asked length, keeps every byte that there was
/// room for, and fills the rest with zeros.
pub proof fn law_resizing_keeps_what_fits(bytes: Seq<u8>, len: int, i: int)
    requires
        0 <= i < len,
    ensures
        resized(bytes, len).len() == len,
        i < bytes.len() ==> resized(bytes, len)[i] == bytes[i],
        i >= bytes.len() ==> resized(bytes, len)[i] == 0,
{
}

/// A conversion goes from the frame's own planes to the asked pixels; raw pixels are
/// asked for in vain.
pub proof fn law_conversion_fits_both_ends(source: AVPixelFormat, fmt: ImageFormat)
    ensures
        to_pixels(source, fmt) is Some <==> fmt != ImageFormat::Raw,
        to_pixels(source, fmt) == Some(YuvFunction::NV12ToARGB) <==> source
            == AVPixelFormat::AV_PIX_FMT_NV12 && fmt == ImageFormat::ARGB,
        to_pixels(source, fmt) == Some(YuvFunction::NV12ToABGR) <==> source
            == AVPixelFormat::AV_PIX_FMT_NV12 && fmt == ImageFormat::ABGR,
        to_pixels(source, fmt) == Some(YuvFunction::I420ToARGB) <==> source
            == AVPixelFormat::AV_PIX_FMT_YUV420P && fmt == ImageFormat::ARGB,
        to_pixels(source, fmt) == Some(YuvFunction::I420ToABGR) <==> source
            == AVPixelFormat::AV_PIX_FMT_YUV420P && fmt == ImageFormat::ABGR,
        to_pixels(source, fmt) != Some(YuvFunction::NV12ToI420),
        plane_count(AVPixelFormat::AV_PIX_FMT_NV12) == 2,
        plane_count(AVPixelFormat::AV_PIX_FMT_YUV420P) == 3,
{
}

/// The pixels have the frame's size, and room for whole rows of them; their format and
/// alignment stay as they were asked for.
pub proof fn law_pixels_have_the_frames_size(
    image: HwRamDecoderImage,
    rgb: ImageRgb,
    rgb_after: ImageRgb,
    i420: Seq<u8>,
    i420_after: Seq<u8>,
    over_i420: bool,
    layout: Option<&I420Layout>,
    conversions: Conversions,
)
    requires
        image.fits(rgb.align),
        image.prepares(rgb, rgb_after, i420, i420_after, over_i420, layout, conversions),
    ensures
        rgb_after.w == image.frame.width,
        rgb_after.h == image.frame.height,
        rgb_after.fmt == rgb.fmt,
        rgb_after.align == rgb.align,
        rgb_after.raw@.len() == image.frame.height * row_len(
            image.frame.width as int,
            rgb.align,
        ),
        forall|i: int|
            0 <= i < rgb_after.raw@.len() && i < rgb.raw@.len() ==> #[trigger] rgb_after.raw@[i]
                == rgb.raw@[i],
{
    let row = row_len(image.frame.width as int, rgb.align);
    assert(0 <= image.frame.height * row) by (nonlinear_arith)
        requires
            0 <= image.frame.height,
            0 <= row,
    ;
}

/// Where the conversions do not fail, each goes from the target of the one before it:
/// the first reads the frame's planes, the last writes rows of the pixels' length, and
/// every one of them is of the frame's size.
pub proof fn law_conversions_lead_to_the_pixels(
    image: HwRamDecoderImage,
    rgb: ImageRgb,
    rgb_after: ImageRgb,
    i420: Seq<u8>,
    i420_after: Seq<u8>,
    over_i420: bool,
    layout: Option<&I420Layout>,
    conversions: Conversions,
    i: int,
)
    requires
        image.prepares(rgb, rgb_after, i420, i420_after, over_i420, layout, conversions),
        image.has_planes(rgb.fmt, over_i420, layout),
        conversions.result is Ok,
        0 <= i < conversions.steps@.len(),
    ensures
        ({
            let steps = conversions.steps@;
            let frame = *image.frame;
            let planes: int = match frame.pixfmt {
                AVPixelFormat::AV_PIX_FMT_NV12 => 2,
                AVPixelFormat::AV_PIX_FMT_YUV420P => 3,
            };
            &&& rgb.fmt != ImageFormat::Raw
            &&& steps[0].source_strides@ == frame.linesize@.take(planes)
            &&& steps.last().target_strides@ == seq![
                row_len(frame.width as int, rgb.align) as i32,
            ]
            &&& i > 0 ==> steps[i].source_strides@ == steps[i - 1].target_strides@
            &&& steps[i].width == frame.width
            &&& steps[i].height == frame.height
            &&& steps.len() == (if over_i420 && frame.pixfmt == AVPixelFormat::AV_PIX_FMT_NV12 {
                2int
            } else {
                1
            })
        }),
{
}

/// Raw pixels are refused. So is the way over three planes whose layout cannot be told;
/// everything else can be converted.
pub proof fn law_what_cannot_be_converted(
    image: HwRamDecoderImage,
    rgb: ImageRgb,
    rgb_after: ImageRgb,
    i420: Seq<u8>,
    i420_after: Seq<u8>,
    over_i420: bool,
    layout: Option<&I420Layout>,
    conversions: Conversions,
)
    requires
        image.prepares(rgb, rgb_after, i420, i420_after, over_i420, layout, conversions),
    ensures
        ({
            let over = over_i420 && image.frame.pixfmt == AVPixelFormat::AV_PIX_FMT_NV12;
            &&& conversions.result is Err <==> rgb.fmt == ImageFormat::Raw || (over
                && layout is None)
            &&& conversions.planes is Some <==> over && layout is Some
            &&& conversions.planes matches Some((y, u, v)) ==> y == 0 && (layout.unwrap().wf()
                ==> u == layout.unwrap().offset@[0] && v == layout.unwrap().offset@[1])
            &&& !over ==> i420_after == i420
            &&& over && layout is None ==> i420_after == i420 && conversions.steps@.len() == 0
            &&& over && layout is Some ==> (layout.unwrap().length >= 0 ==> i420_after.len()
                == layout.unwrap().length) && conversions.steps@[0].function
                == YuvFunction::NV12ToI420
        }),
{
}

/// A downloaded frame is converted exactly if it is one of two planes with a size, its
/// rows are as long as its width, its planes hold all of them, and its pixels can be
/// counted.
pub proof fn law_what_download_can_be_converted(frame: DecodeFrame)
    ensures
        download_refusal(frame) is None <==> {
            &&& frame.pixfmt == AVPixelFormat::AV_PIX_FMT_NV12
            &&& frame.width >= 1
            &&& frame.height >= 1
            &&& frame.data@.len() >= 2
            &&& frame.linesize@.len() >= 2
            &&& frame.linesize@[0] >= frame.width
            &&& frame.linesize@[1] >= frame.width
            &&& frame.linesize@[0] * frame.height <= usize::MAX
            &&& frame.linesize@[1] * ((frame.height + 1) / 2) <= usize::MAX
            &&& frame.linesize@[0] * frame.height <= frame.data@[0]@.len()
            &&& frame.linesize@[1] * ((frame.height + 1) / 2) <= frame.data@[1]@.len()
            &&& frame.width * 4 <= i32::MAX
            &&& frame.width * 4 * frame.height <= usize::MAX
        },
{
}

/// The pixels of a downloaded frame are as many as its own, four bytes each in rows
/// without gaps, and come of its two planes.
pub proof fn law_download_becomes_whole_rows(target: RgbaTarget, frame: DecodeFrame)
    requires
        is_rgba_target(target, frame),
        download_refusal(frame) is None,
    ensures
        target.width == frame.width,
        target.height == frame.height,
        target.len == 4 * target.width * target.height,
        target.conversion.function == YuvFunction::NV12ToABGR,
        target.conversion.target_strides@.len() == 1,
        target.conversion.target_strides@[0] == 4 * target.width,
        target.conversion.source_strides@.len() == 2,
        target.conversion.source_strides@[0] == frame.linesize@[0],
        target.conversion.source_strides@[1] == frame.linesize@[1],
        target.conversion.width == frame.width,
        target.conversion.height == frame.height,
{
    assert(frame.width * 4 * frame.height == 4 * frame.width * frame.height) by (nonlinear_arith);
}

/// A frame can be converted, or be refused, as soon as its size is one, its pixels fit
/// into memory, and the planes that are read of it and of the way between are there.
pub proof fn law_what_can_be_prepared(
    image: HwRamDecoderImage,
    fmt: ImageFormat,
    align: usize,
    over_i420: bool,
    layout: Option<&I420Layout>,
)
    ensures
        image.fits(align) <==> {
            &&& image.frame.width >= 0
            &&& image.frame.height >= 0
            &&& align >= 1
            &&& 4 * image.frame.width + align <= usize::MAX + 1
            &&& row_len(image.frame.width as int, align) * image.frame.height <= isize::MAX
        },
        image.frame.pixfmt == AVPixelFormat::AV_PIX_FMT_YUV420P ==> (image.has_planes(
            fmt,
            over_i420,
            layout,
        ) <==> fmt == ImageFormat::Raw || (image.frame.data@.len() >= 3
            && image.frame.linesize@.len() >= 3)),
        image.frame.pixfmt == AVPixelFormat::AV_PIX_FMT_NV12 && !over_i420 ==> (image.has_planes(
            fmt,
            over_i420,
            layout,
        ) <==> fmt == ImageFormat::Raw || (image.frame.data@.len() >= 2
            && image.frame.linesize@.len() >= 2)),
        image.frame.pixfmt == AVPixelFormat::AV_PIX_FMT_NV12 && over_i420 ==> (image.has_planes(
            fmt,
            over_i420,
            layout,
        ) <==> layout is None || (image.frame.data@.len() >= 2 && image.frame.linesize@.len() >= 2
            && layout.unwrap().wf())),
{
    assert(row_len(image.frame.width as int, align) * image.frame.height == image.frame.height
        * row_len(image.frame.width as int, align)) by (nonlinear_arith);
}

/// The planes between lie within their buffer: each begins not before its start and not
/// behind its end.
pub proof fn law_planes_lie_in_their_buffer(layout: I420Layout)
    ensures
        layout.wf() <==> {
            &&& layout.length >= 0
            &&& layout.linesize@.len() >= 3
            &&& layout.offset@.len() >= 2
            &&& layout.offset@[0] >= 0 && layout.offset@[0] <= layout.length
            &&& layout.offset@[1] >= 0 && layout.offset@[1] <= layout.length
        },
        layout.wf() ==> layout.starts().0 == 0 && layout.starts().1 == layout.offset@[0]
            && layout.starts().2 == layout.offset@[1],
{
}

/// A conversion that is refused is told by both of its ends.
pub proof fn law_refused_conversion_is_told(
    image: HwRamDecoderImage,
    rgb: ImageRgb,
    rgb_after: ImageRgb,
    i420: Seq<u8>,
    i420_after: Seq<u8>,
    over_i420: bool,
    layout: Option<&I420Layout>,
    conversions: Conversions,
    err: Error,
)
    requires
        image.prepares(rgb, rgb_after, i420, i420_after, over_i420, layout, conversions),
        conversions.result == Err::<(), Error>(err),
    ensures
        image.frame.pixfmt == AVPixelFormat::AV_PIX_FMT_YUV420P ==> err@.message
            == "unsupported format: "@ + "AV_PIX_FMT_YUV420P"@ + " -> "@ + "Raw"@,
        image.frame.pixfmt == AVPixelFormat::AV_PIX_FMT_NV12 && (!over_i420 || layout is Some)
            ==> err@.message == "unsupported format: "@ + "AV_PIX_FMT_NV12"@ + " -> "@ + "Raw"@,
        image.frame.pixfmt == AVPixelFormat::AV_PIX_FMT_NV12 && over_i420 && layout is None
            ==> err@.message == "failed to get i420 linesize, offset, length"@,
{
}

/// A downloaded frame that cannot be converted is refused by the first thing that is
/// wrong with it: what it is, its rows, its planes, its pixels.
pub proof fn law_refused_download_is_told(frame: DecodeFrame, reason: Seq<char>)
    requires
        download_refusal(frame) == Some(reason),
        frame.pixfmt == AVPixelFormat::AV_PIX_FMT_NV12,
        frame.width > 0,
        frame.height > 0,
        frame.data@.len() >= 2,
        frame.linesize@.len() >= 2,
    ensures
        ({
            let y = frame.linesize@[0] * frame.height;
            let uv = frame.linesize@[1] * ((frame.height + 1) / 2);
            let rows = frame.linesize@[0] >= 0 && frame.linesize@[1] >= 0;
            let counted = rows && y <= usize::MAX && uv <= usize::MAX;
            let enough = frame.linesize@[0] >= frame.width && frame.linesize@[1] >= frame.width
                && frame.data@[0]@.len() >= y && frame.data@[1]@.len() >= uv;
            &&& frame.linesize@[0] < 0 ==> reason == "invalid downloaded dmabuf Y stride"@
            &&& frame.linesize@[0] >= 0 && frame.linesize@[1] < 0 ==> reason
                == "invalid downloaded dmabuf UV stride"@
            &&& rows && y > usize::MAX ==> reason == "downloaded dmabuf Y plane size overflow"@
            &&& rows && y <= usize::MAX && uv > usize::MAX ==> reason
                == "downloaded dmabuf UV plane size overflow"@
            &&& counted && !enough ==> reason
                == "downloaded dmabuf plane is smaller than its declared layout"@
            &&& counted && enough && frame.width * 4 * frame.height <= usize::MAX ==> reason
                == "downloaded dmabuf RGBA stride overflow"@
        }),
{
    assert(frame.width * 4 <= frame.width * 4 * frame.height) by (nonlinear_arith)
        requires
            frame.width > 0,
            frame.height >= 1,
    ;
}

} // verus!
