//! Constants of the application.

use vstd::prelude::*;

verus! {

/// Width of the window in pixels.
pub const WINDOW_WIDTH: i32 = 1280;

/// Height of the window in pixels.
pub const WINDOW_HEIGHT: i32 = 720;

/// Movement speed of the player, in pixels per second.
pub const SPEED: u32 = 750;

/// Happiness decrease per second, in percentage points.
pub const HAPPINESS_DECREASE: u32 = 5;

/// Duration of the pick-and-drop cooldown, in milliseconds.
pub const PICK_AND_DROP_COOLDOWN_MILLIS: u64 = 200;

/// Happiness change when an item is given, in percentage points: added on a
/// matching item, subtracted on a mismatch.
pub const GIVE_HAPPINESS_DELTA: u32 = 15;

/// States of the game.
#[derive(Debug, Clone, PartialEq, Eq, Structural, Hash)]
pub enum GameState {
    /// The menu phase.
    Menu,
    /// The game phase.
    InGame,
}

} // verus!
