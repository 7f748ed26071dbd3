//! Colours, as red / green / blue bytes.

use vstd::prelude::*;

verus! {

pub const WHITE: (u8, u8, u8) = (255, 255, 255);

pub const RED: (u8, u8, u8) = (255, 0, 0);

pub const YELLOW: (u8, u8, u8) = (255, 255, 0);

pub const PURPLE: (u8, u8, u8) = (160, 32, 240);

pub const LIMEGREEN: (u8, u8, u8) = (50, 205, 50);

pub const BLACK: (u8, u8, u8) = (0, 0, 0);

pub const HOTPINK: (u8, u8, u8) = (255, 105, 180);

} // verus!
