//! Card pixels as this library sees them: BGRA frames, the text templates
//! that fill a card, and pixel-buffer conversions.

use vstd::prelude::*;

pub mod template;

verus! {

/// ARGB8888 SHM buffer in **BGRA** byte order.
#[derive(Debug, Clone, PartialEq, Eq)]
pub struct Frame {
    pub width: u32,
    pub height: u32,
    pub stride: i32,
    pub data: Vec<u8>,
}

} // verus!
