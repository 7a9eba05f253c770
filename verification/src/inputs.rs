//! Translating directional input into a movement for the current tick.

use vstd::prelude::*;

use crate::collisions::Movement;

verus! {

/// A key relevant to steering the player.
#[derive(Debug, Clone, Copy, PartialEq, Eq, Structural)]
pub enum KeyInput {
    /// The up arrow.
    Up,
    /// The down arrow.
    Down,
    /// The left arrow.
    Left,
    /// The right arrow.
    Right,
    /// Any other key.
    Other,
}

/// The unit vector of one key, in screen coordinates where y grows
/// downward: up is `(0, -1)`, down `(0, 1)`, left `(-1, 0)`, right
/// `(1, 0)`, anything else `(0, 0)`.
pub open spec fn key_direction_spec(key: KeyInput) -> (i32, i32) {
    match key {
        KeyInput::Up => (0i32, -1i32),
        KeyInput::Down => (0i32, 1i32),
        KeyInput::Left => (-1i32, 0i32),
        KeyInput::Right => (1i32, 0i32),
        KeyInput::Other => (0i32, 0i32),
    }
}

/// Returns a vector oriented toward the related direction, in screen
/// coordinates where y grows downward.
pub fn key_direction(key: KeyInput) -> (d: (i32, i32))
    ensures
        d == key_direction_spec(key),
{
    match key {
        KeyInput::Up => (0, -1),
        KeyInput::Down => (0, 1),
        KeyInput::Left => (-1, 0),
        KeyInput::Right => (1, 0),
        KeyInput::Other => (0, 0),
    }
}

/// Combines the currently pressed arrow keys into one direction, in world
/// coordinates where y grows upward: each axis is the difference of its two
/// keys, so opposite keys cancel out.
pub fn arrow_direction(up: bool, down: bool, left: bool, right: bool) -> (d: (i32, i32))
    ensures
        d.0 == (if right {
            1int
        } else {
            0int
        }) - (if left {
            1int
        } else {
            0int
        }),
        d.1 == (if up {
            1int
        } else {
            0int
        }) - (if down {
            1int
        } else {
            0int
        }),
{
    let mut dx: i32 = 0;
    let mut dy: i32 = 0;
    if up {
        dy = dy + 1;
    }
    if down {
        dy = dy - 1;
    }
    if left {
        dx = dx - 1;
    }
    if right {
        dx = dx + 1;
    }
    (dx, dy)
}

/// The displacement of one tick: each axis of the direction scaled by the
/// distance the player covers in `delta_millis` at the given speed.
pub open spec fn movement_of_direction(dir_x: int, dir_y: int, delta_millis: int, speed: int) -> Movement {
    let step = delta_millis * speed / 1000;
    Movement { x: (dir_x * step) as i32, y: (dir_y * step) as i32 }
}

/// Turns a direction into the pending movement of this tick: the direction
/// scaled by the elapsed time and the movement speed in pixels per second.
pub fn movement_from_direction(dir_x: i32, dir_y: i32, delta_millis: u64, speed: u32) -> (m:
    Movement)
    requires
        -1 <= dir_x <= 1,
        -1 <= dir_y <= 1,
        delta_millis <= 1_000_000,
        speed <= 1_000_000,
    ensures
        m == movement_of_direction(dir_x as int, dir_y as int, delta_millis as int, speed as int),
{
    proof {
        assert(delta_millis * speed <= 1_000_000_000_000) by (nonlinear_arith)
            requires
                delta_millis <= 1_000_000,
                speed <= 1_000_000,
        ;
    }
    let step_u: u64 = delta_millis * (speed as u64) / 1000;
    let step: i32 = step_u as i32;
    proof {
        assert(step_u <= 1_000_000_000);
        assert(step == step_u);
        assert(-1_000_000_000 <= dir_x * step <= 1_000_000_000) by (nonlinear_arith)
            requires
                -1 <= dir_x <= 1,
                0 <= step <= 1_000_000_000,
        ;
        assert(-1_000_000_000 <= dir_y * step <= 1_000_000_000) by (nonlinear_arith)
            requires
                -1 <= dir_y <= 1,
                0 <= step <= 1_000_000_000,
        ;
    }
    Movement { x: dir_x * step, y: dir_y * step }
}

} // verus!
