//! Codec for the CNM Online on-disk formats.
//!
//! - `.cnmb`/`.cnms` level files are binary "LParse" containers ("CNML" magic);
//!   the [`lparse`] module reads and writes them, and
//!   [`lparse::level_data`] projects them into typed level structures.
//! - `.cnma` files are line-oriented text configuration files handled by the
//!   [`cnma`] module.
//!
//! Fields that the game engine stores as 32-bit floats are held here as their
//! raw IEEE 754 bit patterns (`u32`), so that every byte of the formats is
//! reproduced exactly; the [`fbits`] module gives the integer/bit-pattern
//! conversions the codec itself needs.

use vstd::prelude::*;

pub mod cnma;
pub mod fbits;
pub mod level_data;
pub mod lparse;
pub mod text;

verus! {

/// A generic rectangle, stored in lparse files as four consecutive `i32`s.
#[derive(Debug, Clone, Copy, PartialEq, Eq, Structural)]
pub struct Rect {
    /// X position of the rect
    pub x: i32,
    /// Y position of the rect
    pub y: i32,
    /// Width of the rect (negative widths are meaningless to the engine)
    pub w: i32,
    /// Height of the rect (negative heights are meaningless to the engine)
    pub h: i32,
}

impl Rect {
    /// Creates a new rectangle.
    pub fn new(x: i32, y: i32, w: i32, h: i32) -> (r: Self)
        ensures
            r == (Rect { x, y, w, h }),
    {
        Rect { x, y, w, h }
    }
}

} // verus!
