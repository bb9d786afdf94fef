//! Displays and captures of an X server, as far as they are told apart from
//! others.

use vstd::prelude::*;

verus! {

#[derive(Debug)]
pub struct Display {
    pub name: String,
    pub origin: (i32, i32),
    pub width: usize,
    pub height: usize,
    pub online: bool,
    pub primary: bool,
}

/// The size of what an opened capture delivers.
#[derive(Clone, Copy, PartialEq, Eq, Debug, Structural)]
pub struct Capturer {
    pub width: usize,
    pub height: usize,
}

} // verus!
