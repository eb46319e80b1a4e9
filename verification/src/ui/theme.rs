//! The pastel palette, as red-green-blue triples.
use vstd::prelude::*;

verus! {

pub const BG: (u8, u8, u8) = (20, 14, 38);
pub const BG_DIM: (u8, u8, u8) = (14, 10, 28);
/// Bottom of the vertical background gradient painted behind the waves.
pub const BG_DEEP: (u8, u8, u8) = (10, 8, 22);

pub const PINK: (u8, u8, u8) = (255, 140, 205);
pub const LAVENDER: (u8, u8, u8) = (185, 150, 255);
pub const CYAN: (u8, u8, u8) = (110, 235, 225);
pub const PEACH: (u8, u8, u8) = (255, 185, 140);
pub const GOLD: (u8, u8, u8) = (255, 225, 150);
pub const PALE: (u8, u8, u8) = (235, 228, 255);
pub const FOG_GREY: (u8, u8, u8) = (150, 142, 180);
pub const STORM_FLASH: (u8, u8, u8) = (255, 250, 220);
pub const MUTED_TEXT: (u8, u8, u8) = (150, 140, 190);

/// The signature wave gradient: pink, lavender, cyan, peach, and back to pink.
pub const WAVE_STOPS: [(u8, u8, u8); 4] = [PINK, LAVENDER, CYAN, PEACH];

} // verus!
