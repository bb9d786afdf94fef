//! Framebuffer formats and modifiers as the DRM names them.

use crate::error::{Error, ErrorKind, Failure};
use crate::retry;
use crate::text::join3;
use drm::buffer::{DrmFourcc, DrmModifier};
use vstd::prelude::*;

verus! {

pub const ABGR8888: u32 = 0x3432_4241;

pub const ARGB8888: u32 = 0x3432_5241;

pub const RGB565: u32 = 0x3631_4752;

pub const XBGR8888: u32 = 0x3432_4258;

pub const XRGB8888: u32 = 0x3432_5258;

/// The formats that can be read back, and all the others.
#[derive(Clone, Copy, PartialEq, Eq, Debug, Structural)]
pub enum PixelFormat {
    Abgr8888,
    Argb8888,
    Rgb565,
    Xbgr8888,
    Xrgb8888,
    Other,
}

pub open spec fn pixel_format(code: u32) -> PixelFormat {
    if code == ABGR8888 {
        PixelFormat::Abgr8888
    } else if code == ARGB8888 {
        PixelFormat::Argb8888
    } else if code == RGB565 {
        PixelFormat::Rgb565
    } else if code == XBGR8888 {
        PixelFormat::Xbgr8888
    } else if code == XRGB8888 {
        PixelFormat::Xrgb8888
    } else {
        PixelFormat::Other
    }
}

/// `DrmFourcc::try_from` tells the five formats that can be read back from
/// every other code.
#[verifier::external_body]
fn classify(code: u32) -> (format: PixelFormat)
    ensures
        format == pixel_format(code),
{
    match DrmFourcc::try_from(code) {
        Ok(DrmFourcc::Abgr8888) => PixelFormat::Abgr8888,
        Ok(DrmFourcc::Argb8888) => PixelFormat::Argb8888,
        Ok(DrmFourcc::Rgb565) => PixelFormat::Rgb565,
        Ok(DrmFourcc::Xbgr8888) => PixelFormat::Xbgr8888,
        Ok(DrmFourcc::Xrgb8888) => PixelFormat::Xrgb8888,
        _ => PixelFormat::Other,
    }
}

/// The four bytes of `code`, low byte first, are the UTF-8 form of one single
/// character.
pub open spec fn is_one_character(code: u32) -> bool {
    let first = code % 256;
    let second = code / 256 % 256;
    let third = code / 65536 % 256;
    let fourth = code / 16777216;
    &&& 0xf0 <= first <= 0xf4
    &&& 0x80 <= second <= 0xbf
    &&& 0x80 <= third <= 0xbf
    &&& 0x80 <= fourth <= 0xbf
    &&& first == 0xf0 ==> second >= 0x90
    &&& first == 0xf4 ==> second <= 0x8f
}

/// The flag that turns the byte order of a format. The DRM crate counts it among
/// the formats.
pub const BIG_ENDIAN: u32 = 0x8000_0000;

/// The DRM crate panics when it prints `code`.
pub open spec fn is_unprintable(code: u32) -> bool {
    code == BIG_ENDIAN || is_one_character(code)
}

/// Whether the DRM crate can print `code`: it cannot print the flag alone, nor a
/// code whose bytes spell one single character.
pub fn is_printable_code(code: u32) -> (printable: bool)
    ensures
        printable == !is_unprintable(code),
{
    let first: u32 = code % 256;
    let second: u32 = code / 256 % 256;
    let third: u32 = code / 65536 % 256;
    let fourth: u32 = code / 16777216;
    code != BIG_ENDIAN && !(0xf0 <= first && first <= 0xf4 && 0x80 <= second && second <= 0xbf && 0x80 <= third && third
        <= 0xbf && 0x80 <= fourth && fourth <= 0xbf && (first != 0xf0 || second >= 0x90) && (first
        != 0xf4 || second <= 0x8f))
}

/// How the DRM crate prints a format code.
pub uninterp spec fn fourcc_text(code: u32) -> Seq<char>;

/// The text of what `DrmFourcc::try_from` gives for `code`: that of the format,
/// or that of the `UnrecognizedFourcc` error where there is no such format.
/// Printing panics on a code that spells one single character, and on the format
/// that is only a flag.
#[verifier::external_body]
fn print_fourcc(code: u32) -> (text: String)
    requires
        !is_unprintable(code),
    ensures
        text@ == fourcc_text(code),
{
    match DrmFourcc::try_from(code) {
        Ok(format) => format.to_string(),
        Err(err) => err.to_string(),
    }
}

/// A modifier is linear if `DrmModifier::from` makes it `DrmModifier::Linear`,
/// whose value is zero.
#[verifier::external_body]
pub(crate) fn is_linear(modifier: u64) -> (linear: bool)
    ensures
        linear == (modifier == 0),
{
    DrmModifier::from(modifier) == DrmModifier::Linear
}

/// The value that `u64::from` gives for `DrmModifier::Linear`.
#[verifier::external_body]
pub(crate) fn linear_modifier() -> (modifier: u64)
    ensures
        modifier == 0,
{
    u64::from(DrmModifier::Linear)
}

/// How the DRM crate prints a modifier for debugging.
pub uninterp spec fn modifier_text(modifier: u64) -> Seq<char>;

/// The derived `Debug` text of `DrmModifier::from(modifier)`: a variant's name,
/// with the value in brackets where the modifier is not a known one. It holds no
/// blank.
#[verifier::external_body]
fn print_modifier(modifier: u64) -> (text: String)
    ensures
        text@ == modifier_text(modifier),
        !text@.contains(' '),
{
    format!("{:?}", DrmModifier::from(modifier))
}

/// A framebuffer format that cannot be read back.
pub open spec fn unsupported_format(code: u32) -> Failure {
    Failure::of(ErrorKind::Unsupported, "unsupported framebuffer format: "@ + fourcc_text(code))
}

pub fn unsupported_format_error(code: u32) -> (err: Error)
    requires
        !is_unprintable(code),
    ensures
        err@ == unsupported_format(code),
{
    let text = print_fourcc(code);
    Error::with_detail(
        ErrorKind::Unsupported,
        "unsupported framebuffer format: ",
        text.as_str(),
    )
}

/// The name of the pixel layout that a framebuffer format has in memory.
pub open spec fn layout_name(code: u32) -> Option<Seq<char>> {
    match pixel_format(code) {
        PixelFormat::Argb8888 | PixelFormat::Xrgb8888 => Some("BGRA"@),
        PixelFormat::Abgr8888 | PixelFormat::Xbgr8888 => Some("RGBA"@),
        PixelFormat::Rgb565 => Some("RGB565LE"@),
        PixelFormat::Other => None,
    }
}

/// Whether a framebuffer of this format can be read back.
pub fn is_readable(format: u32) -> (readable: bool)
    ensures
        readable == (layout_name(format) is Some),
{
    match classify(format) {
        PixelFormat::Other => false,
        _ => true,
    }
}

/// Names the pixel layout of a framebuffer format.
pub fn map_drm_fourcc(format: u32) -> (name: Result<&'static str, Error>)
    requires
        layout_name(format) is None ==> !is_unprintable(format),
    ensures
        match name {
            Ok(name) => layout_name(format) == Some(name@),
            Err(err) => layout_name(format) is None && err@ == unsupported_format(format),
        },
{
    match classify(format) {
        PixelFormat::Argb8888 | PixelFormat::Xrgb8888 => Ok("BGRA"),
        PixelFormat::Abgr8888 | PixelFormat::Xbgr8888 => Ok("RGBA"),
        PixelFormat::Rgb565 => Ok("RGB565LE"),
        PixelFormat::Other => Err(unsupported_format_error(format)),
    }
}

/// Whether the fourth byte of a pixel of this format carries no alpha.
pub open spec fn lacks_alpha(code: u32) -> bool {
    code == XRGB8888 || code == XBGR8888
}

pub fn should_force_opaque_alpha(format: u32) -> (force: bool)
    ensures
        force == lacks_alpha(format),
{
    match classify(format) {
        PixelFormat::Xrgb8888 | PixelFormat::Xbgr8888 => true,
        _ => false,
    }
}

pub open spec fn non_linear(modifier: u64) -> Failure {
    Failure::of(
        ErrorKind::Unsupported,
        "non-linear framebuffer modifier "@ + modifier_text(modifier)
            + "; the CPU/KMS readback path requires a linear buffer \u{2014} use the dmabuf/VAAPI capture path"@,
    )
}

proof fn lemma_non_linear_is_quiet(modifier: Seq<char>)
    requires
        !modifier.contains(' '),
    ensures
        retry::is_quiet(
            "non-linear framebuffer modifier "@ + modifier
                + "; the CPU/KMS readback path requires a linear buffer \u{2014} use the dmabuf/VAAPI capture path"@,
        ),
{
    reveal_strlit("non-linear framebuffer modifier ");
    reveal_strlit(
        "; the CPU/KMS readback path requires a linear buffer \u{2014} use the dmabuf/VAAPI capture path",
    );
    retry::lemma_quiet_around(
        "non-linear framebuffer modifier "@,
        modifier,
        "; the CPU/KMS readback path requires a linear buffer \u{2014} use the dmabuf/VAAPI capture path"@,
    );
}

/// The error about a modifier that is printed like this. A tiled buffer is
/// reported as unsupported rather than as a matter of permissions: where the
/// modifier's text holds no blank, no other try with more rights follows.
pub fn non_linear_error(modifier: &str) -> (err: Error)
    ensures
        err@ == Failure::of(
            ErrorKind::Unsupported,
            "non-linear framebuffer modifier "@ + modifier@
                + "; the CPU/KMS readback path requires a linear buffer \u{2014} use the dmabuf/VAAPI capture path"@,
        ),
        !modifier@.contains(' ') ==> !retry::client_retries(err@.message),
{
    let message = join3(
        "non-linear framebuffer modifier ",
        modifier,
        "; the CPU/KMS readback path requires a linear buffer \u{2014} use the dmabuf/VAAPI capture path",
    );
    proof {
        if !modifier@.contains(' ') {
            lemma_non_linear_is_quiet(modifier@);
            retry::law_quiet_message_is_not_retried(message@);
        }
    }
    Error::with_message(ErrorKind::Unsupported, message)
}

/// Reading a buffer back as a plain array of pixels asks for a linear modifier
/// or for none at all. The refusal calls for no other try with more rights.
pub fn validate_modifier(modifier: Option<u64>) -> (result: Result<(), Error>)
    ensures
        match result {
            Ok(_) => modifier is None || modifier == Some(0u64),
            Err(err) => modifier is Some && modifier != Some(0u64) && err@ == non_linear(
                modifier.unwrap(),
            ) && !retry::client_retries(err@.message),
        },
{
    if let Some(modifier) = modifier {
        if !is_linear(modifier) {
            let text = print_modifier(modifier);
            return Err(non_linear_error(text.as_str()));
        }
    }
    Ok(())
}

/// A format and the one that has an unused byte in place of its alpha lie alike in
/// memory, and only these lack an alpha; a format that lies otherwise cannot be read
/// back.
pub proof fn law_formats_in_memory(code: u32)
    ensures
        layout_name(code) == Some("BGRA"@) <== code == 0x3432_5241 || code == 0x3432_5258,
        layout_name(code) == Some("RGBA"@) <== code == 0x3432_4241 || code == 0x3432_4258,
        layout_name(code) == Some("RGB565LE"@) <== code == 0x3631_4752,
        layout_name(code) is Some <==> code == 0x3432_5241 || code == 0x3432_5258 || code
            == 0x3432_4241 || code == 0x3432_4258 || code == 0x3631_4752,
        lacks_alpha(code) <==> code == 0x3432_5258 || code == 0x3432_4258,
{
}

} // verus!
