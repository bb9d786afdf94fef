//! Pixel layouts and the bytes of frames.

use crate::error::{Error, ErrorKind, Failure};
use crate::text::{join3, equals};
use vstd::prelude::*;

verus! {

#[derive(Clone, Copy, PartialEq, Eq, Debug, Structural)]
pub enum Pixfmt {
    BGRA,
    RGBA,
    RGB565LE,
    I420,
    NV12,
    I444,
}

/// The layouts that a helper may announce, by their names.
pub open spec fn named_pixfmt(name: Seq<char>) -> Option<Pixfmt> {
    if name == "BGRA"@ {
        Some(Pixfmt::BGRA)
    } else if name == "RGBA"@ {
        Some(Pixfmt::RGBA)
    } else if name == "RGB565LE"@ {
        Some(Pixfmt::RGB565LE)
    } else {
        None
    }
}

pub open spec fn unsupported_pixfmt(name: Seq<char>) -> Failure {
    Failure::of(ErrorKind::Unsupported, "unsupported kms helper pixfmt '"@ + name + "'"@)
}

pub fn parse_pixfmt(pixfmt: &str) -> (parsed: Result<Pixfmt, Error>)
    ensures
        match parsed {
            Ok(parsed) => named_pixfmt(pixfmt@) == Some(parsed),
            Err(err) => named_pixfmt(pixfmt@) is None && err@ == unsupported_pixfmt(pixfmt@),
        },
{
    if equals(pixfmt, "BGRA") {
        Ok(Pixfmt::BGRA)
    } else if equals(pixfmt, "RGBA") {
        Ok(Pixfmt::RGBA)
    } else if equals(pixfmt, "RGB565LE") {
        Ok(Pixfmt::RGB565LE)
    } else {
        let message = join3("unsupported kms helper pixfmt '", pixfmt, "'");
        Err(Error::with_message(ErrorKind::Unsupported, message))
    }
}

/// The bytes of whole pixels, `size` bytes each, at the start of `bytes`.
pub open spec fn whole_pixels(bytes: Seq<u8>, size: int) -> int {
    bytes.len() as int / size * size
}

/// Some pixel shows more than black. The fourth byte of a pixel of four bytes
/// is its alpha and shows nothing; a pixel that is cut off does not count.
pub open spec fn has_visible_rgb(pixfmt: Seq<char>, bytes: Seq<u8>) -> bool {
    if pixfmt == "BGRA"@ || pixfmt == "RGBA"@ {
        exists|i: int|
            0 <= i < whole_pixels(bytes, 4) && i % 4 != 3 && #[trigger] bytes[i] != 0
    } else if pixfmt == "RGB565LE"@ {
        exists|i: int| 0 <= i < whole_pixels(bytes, 2) && #[trigger] bytes[i] != 0
    } else {
        exists|i: int| 0 <= i < bytes.len() && #[trigger] bytes[i] != 0
    }
}

/// Whether one of the first `end` bytes is not zero, but for every fourth byte
/// where `skip_alpha` holds.
fn any_filled(bytes: &[u8], end: usize, skip_alpha: bool) -> (found: bool)
    requires
        end <= bytes@.len(),
    ensures
        found == exists|i: int|
            0 <= i < end && !(skip_alpha && i % 4 == 3) && #[trigger] bytes@[i] != 0,
{
    for i in 0..end
        invariant
            end <= bytes@.len(),
            forall|j: int|
                0 <= j < i && !(skip_alpha && j % 4 == 3) ==> #[trigger] bytes@[j] == 0,
    {
        if !(skip_alpha && i % 4 == 3) && bytes[i] != 0 {
            assert(bytes@[i as int] != 0);
            return true;
        }
    }
    false
}

pub fn bytes_have_visible_rgb(pixfmt: &str, bytes: &[u8]) -> (visible: bool)
    ensures
        visible == has_visible_rgb(pixfmt@, bytes@),
{
    if equals(pixfmt, "BGRA") || equals(pixfmt, "RGBA") {
        any_filled(bytes, bytes.len() / 4 * 4, true)
    } else if equals(pixfmt, "RGB565LE") {
        any_filled(bytes, bytes.len() / 2 * 2, false)
    } else {
        any_filled(bytes, bytes.len(), false)
    }
}

/// `bytes` with the fourth byte of every pixel of four bytes at its maximum.
pub open spec fn opaque(bytes: Seq<u8>) -> Seq<u8> {
    Seq::new(
        bytes.len(),
        |i: int|
            if i % 4 == 3 {
                0xffu8
            } else {
                bytes[i]
            },
    )
}

pub fn force_opaque_alpha(bytes: &mut [u8])
    ensures
        final(bytes)@ == opaque(old(bytes)@),
{
    let ghost before = bytes@;
    let len: usize = bytes.len();
    for i in 0..len
        invariant
            len == before.len(),
            bytes@.len() == before.len(),
            forall|j: int| 0 <= j < i ==> bytes@[j] == opaque(before)[j],
            forall|j: int| i <= j < before.len() ==> bytes@[j] == before[j],
    {
        if i % 4 == 3 {
            bytes[i] = 0xff;
        }
    }
    assert(bytes@ =~= opaque(before));
}

/// Making the alpha opaque a second time changes nothing.
pub proof fn law_opaque_once(bytes: Seq<u8>)
    ensures
        opaque(opaque(bytes)) == opaque(bytes),
{
    assert(opaque(opaque(bytes)) =~= opaque(bytes));
}

/// A frame of four bytes per pixel is as visible with opaque alpha as it was.
pub proof fn law_opaque_keeps_visibility(pixfmt: Seq<char>, bytes: Seq<u8>)
    requires
        pixfmt == "BGRA"@ || pixfmt == "RGBA"@,
    ensures
        has_visible_rgb(pixfmt, opaque(bytes)) == has_visible_rgb(pixfmt, bytes),
{
    if has_visible_rgb(pixfmt, bytes) {
        let i = choose|i: int|
            0 <= i < whole_pixels(bytes, 4) && i % 4 != 3 && #[trigger] bytes[i] != 0;
        assert(opaque(bytes)[i] == bytes[i]);
    }
    if has_visible_rgb(pixfmt, opaque(bytes)) {
        let i = choose|i: int|
            0 <= i < whole_pixels(bytes, 4) && i % 4 != 3 && #[trigger] opaque(bytes)[i] != 0;
        assert(bytes[i] == opaque(bytes)[i]);
    }
}

/// Making the alpha opaque sets the fourth byte of every four and leaves every other
/// byte alone.
pub proof fn law_opaque_sets_alpha_alone(bytes: Seq<u8>, pixel: int, i: int)
    requires
        0 <= i < 4,
        0 <= pixel,
        4 * pixel + i < bytes.len(),
    ensures
        opaque(bytes).len() == bytes.len(),
        i == 3 ==> opaque(bytes)[4 * pixel + i] == 255,
        i < 3 ==> opaque(bytes)[4 * pixel + i] == bytes[4 * pixel + i],
{
    assert((4 * pixel + i) % 4 == i);
}

/// A frame shows something as soon as one byte that shows is not zero, and not before:
/// of four bytes per pixel the first three show, of two both, of any other layout
/// every byte. What is cut off of the last pixel does not show.
pub proof fn law_one_byte_makes_a_frame_visible(bytes: Seq<u8>, pixel: int, i: int)
    requires
        0 <= pixel,
        0 <= i,
    ensures
        i < 3 && 4 * pixel + 4 <= bytes.len() && bytes[4 * pixel + i] != 0 ==> has_visible_rgb(
            "BGRA"@,
            bytes,
        ) && has_visible_rgb("RGBA"@, bytes),
        i < 2 && 2 * pixel + 2 <= bytes.len() && bytes[2 * pixel + i] != 0 ==> has_visible_rgb(
            "RGB565LE"@,
            bytes,
        ),
{
    reveal_strlit("BGRA");
    reveal_strlit("RGBA");
    reveal_strlit("RGB565LE");
    assert("RGB565LE"@.len() == 8 && "BGRA"@.len() == 4 && "RGBA"@.len() == 4);
    if i < 3 && 4 * pixel + 4 <= bytes.len() && bytes[4 * pixel + i] != 0 {
        assert((4 * pixel + i) % 4 == i);
        assert(4 * pixel + i < whole_pixels(bytes, 4));
    }
    if i < 2 && 2 * pixel + 2 <= bytes.len() && bytes[2 * pixel + i] != 0 {
        assert(2 * pixel + i < whole_pixels(bytes, 2));
    }
}

/// A frame whose whole pixels are black shows nothing, whatever their alpha is and
/// whatever is cut off behind them.
pub proof fn law_black_frame_is_not_visible(bytes: Seq<u8>)
    ensures
        (forall|i: int|
            0 <= i < bytes.len() - bytes.len() % 4 && i % 4 < 3 ==> #[trigger] bytes[i] == 0)
            ==> !has_visible_rgb("BGRA"@, bytes) && !has_visible_rgb("RGBA"@, bytes),
        (forall|i: int| 0 <= i < bytes.len() - bytes.len() % 2 ==> #[trigger] bytes[i] == 0)
            ==> !has_visible_rgb("RGB565LE"@, bytes),
{
    reveal_strlit("BGRA");
    reveal_strlit("RGBA");
    reveal_strlit("RGB565LE");
    assert("RGB565LE"@.len() == 8 && "BGRA"@.len() == 4 && "RGBA"@.len() == 4);
    assert(whole_pixels(bytes, 4) == bytes.len() - bytes.len() % 4);
    assert(whole_pixels(bytes, 2) == bytes.len() - bytes.len() % 2);
}

/// Of a layout that is not known every byte counts.
pub proof fn law_unknown_layout_shows_every_byte(pixfmt: Seq<char>, bytes: Seq<u8>)
    requires
        pixfmt != "BGRA"@,
        pixfmt != "RGBA"@,
        pixfmt != "RGB565LE"@,
    ensures
        has_visible_rgb(pixfmt, bytes) <==> exists|i: int|
            0 <= i < bytes.len() && #[trigger] bytes[i] > 0,
        named_pixfmt(pixfmt) is None,
{
    if exists|i: int| 0 <= i < bytes.len() && #[trigger] bytes[i] > 0 {
        let i = choose|i: int| 0 <= i < bytes.len() && #[trigger] bytes[i] > 0;
        assert(bytes[i] != 0);
    }
    if has_visible_rgb(pixfmt, bytes) {
        let i = choose|i: int| 0 <= i < bytes.len() && #[trigger] bytes[i] != 0;
        assert(bytes[i] > 0);
    }
}

/// The three layouts that a helper announces are told apart by their names.
pub proof fn law_layouts_are_told_apart()
    ensures
        named_pixfmt("BGRA"@) == Some(Pixfmt::BGRA),
        named_pixfmt("RGBA"@) == Some(Pixfmt::RGBA),
        named_pixfmt("RGB565LE"@) == Some(Pixfmt::RGB565LE),
{
    reveal_strlit("BGRA");
    reveal_strlit("RGBA");
    reveal_strlit("RGB565LE");
    assert("BGRA"@[0] != "RGBA"@[0]);
    assert("RGB565LE"@.len() == 8 && "BGRA"@.len() == 4 && "RGBA"@.len() == 4);
}

} // verus!
