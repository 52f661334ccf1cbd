//! Constants of the game engine that the codec shares.

use vstd::prelude::*;

verus! {

/// Size of a tile in pixels.
pub const TILE_SIZE: usize = 32;

/// The light id of complete black.
pub const LIGHT_BLACK: u8 = 7;

/// The light id that applies no lighting edits.
pub const LIGHT_NORMAL: u8 = 3;

/// The light id of complete white (the maximum light id).
pub const LIGHT_WHITE: u8 = 0;

/// The opaque transparency id.
pub const OPAQUE: u8 = 0;

/// The clear transparency id (the maximum transparency id).
pub const CLEAR: u8 = 7;

/// The frame rate of the engine, in ticks per second.
pub const FRAME_RATE: i32 = 30;

} // verus!
