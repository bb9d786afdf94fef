//! Displays and captures of a Wayland compositor, as far as they are told apart
//! from others.

use vstd::prelude::*;

verus! {

/// A display whose logical size may differ from its size in pixels. The scale is
/// the bit pattern of a ratio.
#[derive(Debug)]
pub struct Display {
    pub name: String,
    pub origin: (i32, i32),
    pub width: usize,
    pub height: usize,
    pub logical_width: usize,
    pub logical_height: usize,
    pub scale: u64,
    pub online: bool,
    pub primary: bool,
}

/// The size of what an opened capture delivers.
#[derive(Clone, Copy, PartialEq, Eq, Debug, Structural)]
pub struct Capturer {
    pub width: usize,
    pub height: usize,
}

} // verus!
