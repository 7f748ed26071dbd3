//! The layout of the screen, in cells.

use vstd::prelude::*;

verus! {

pub const SCREEN_WIDTH: i32 = 100;

pub const SCREEN_HEIGHT: i32 = 60;

pub const MAP_WIDTH: i32 = 85;

pub const MAP_HEIGHT: i32 = 45;

pub const SIDEBAR_WIDTH: i32 = SCREEN_WIDTH - MAP_WIDTH;

pub const SIDEBAR_HEIGHT: i32 = MAP_HEIGHT;

pub const LOG_WIDTH: i32 = SCREEN_WIDTH;

pub const LOG_HEIGHT: i32 = SCREEN_HEIGHT - MAP_HEIGHT;

/// Width of the panel in which a suspect is talked to.
pub const TALK_PANEL_WIDTH: i32 = MAP_WIDTH;

/// Height of the panel in which a suspect is talked to.
pub const TALK_PANEL_HEIGHT: i32 = MAP_HEIGHT;

/// Width of the panel in which a clue is examined.
pub const EXAM_PANEL_WIDTH: i32 = MAP_WIDTH;

/// Height of the panel in which a clue is examined.
pub const EXAM_PANEL_HEIGHT: i32 = MAP_HEIGHT;

} // verus!
