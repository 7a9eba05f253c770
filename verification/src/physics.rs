//! Moving entities by their velocity and the elapsed time.

use vstd::prelude::*;

verus! {

/// Position of an entity in the plane. Position and velocity share one
/// length unit; a velocity is that unit per second.
#[derive(Debug, Clone, Copy, PartialEq, Eq, Structural)]
pub struct Position {
    /// Horizontal coordinate.
    pub x: i32,
    /// Vertical coordinate.
    pub y: i32,
}

/// Velocity of an entity, in length units per second.
#[derive(Debug, Clone, Copy, PartialEq, Eq, Structural)]
pub struct Velocity {
    /// Horizontal speed.
    pub x: i32,
    /// Vertical speed.
    pub y: i32,
}

/// Integer division that rounds toward zero, as the machine division does.
pub open spec fn div_trunc(a: int, b: int) -> int {
    if a >= 0 {
        a / b
    } else {
        -((-a) / b)
    }
}

/// How far a velocity component carries in `delta_millis` milliseconds.
pub open spec fn displacement(v: int, delta_millis: int) -> int {
    div_trunc(v * delta_millis, 1000)
}

/// Whether moving the entity for `delta_millis` milliseconds stays within
/// the machine range of coordinates.
pub open spec fn step_fits(p: Position, v: Velocity, delta_millis: int) -> bool {
    &&& i32::MIN <= p.x + displacement(v.x as int, delta_millis) <= i32::MAX
    &&& i32::MIN <= p.y + displacement(v.y as int, delta_millis) <= i32::MAX
}

/// One coordinate moved by its velocity for `delta_millis` milliseconds.
fn move_coord(p: i32, v: i32, delta_millis: u32) -> (r: i32)
    requires
        delta_millis <= 1_000_000,
        i32::MIN <= p + displacement(v as int, delta_millis as int) <= i32::MAX,
    ensures
        r == p + displacement(v as int, delta_millis as int),
{
    proof {
        assert((v as int) * (delta_millis as int) <= 0x7fff_ffff_0000_0000int && -0x7fff_ffff_0000_0000int
            <= (v as int) * (delta_millis as int)) by (nonlinear_arith)
            requires
                -0x8000_0000 <= v as int <= 0x7fff_ffff,
                0 <= delta_millis as int <= 1_000_000,
        ;
    }
    let scaled: i64 = (v as i64) * (delta_millis as i64);
    let magnitude: u64 = (if scaled >= 0 {
        scaled
    } else {
        -scaled
    }) as u64;
    let moved_mag: u64 = magnitude / 1000;
    let moved: i64 = if scaled >= 0 {
        moved_mag as i64
    } else {
        -(moved_mag as i64)
    };
    (p as i64 + moved) as i32
}

/// Moves the position of every entity by its velocity, scaled by the
/// elapsed time: each coordinate advances by `velocity * delta_millis`
/// milliseconds' worth of distance, rounded toward zero.
pub fn update(entities: &mut Vec<(Position, Velocity)>, delta_millis: u32)
    requires
        delta_millis <= 1_000_000,
        forall|k: int|
            0 <= k < old(entities)@.len() ==> step_fits(
                (#[trigger] old(entities)@[k]).0,
                old(entities)@[k].1,
                delta_millis as int,
            ),
    ensures
        final(entities)@.len() == old(entities)@.len(),
        forall|k: int|
            0 <= k < old(entities)@.len() ==> #[trigger] final(entities)@[k] == (
            Position {
                x: (old(entities)@[k].0.x + displacement(
                    old(entities)@[k].1.x as int,
                    delta_millis as int,
                )) as i32,
                y: (old(entities)@[k].0.y + displacement(
                    old(entities)@[k].1.y as int,
                    delta_millis as int,
                )) as i32,
            },
            old(entities)@[k].1,
        ),
{
    let len = entities.len();
    let mut out: Vec<(Position, Velocity)> = Vec::new();
    let mut i: usize = 0;
    while i < len
        invariant
            len == entities@.len(),
            entities@ == old(entities)@,
            delta_millis <= 1_000_000,
            forall|k: int|
                0 <= k < len ==> step_fits(
                    (#[trigger] entities@[k]).0,
                    entities@[k].1,
                    delta_millis as int,
                ),
            0 <= i <= len,
            out@.len() == i,
            forall|k: int|
                0 <= k < i ==> #[trigger] out@[k] == (
                Position {
                    x: (entities@[k].0.x + displacement(
                        entities@[k].1.x as int,
                        delta_millis as int,
                    )) as i32,
                    y: (entities@[k].0.y + displacement(
                        entities@[k].1.y as int,
                        delta_millis as int,
                    )) as i32,
                },
                entities@[k].1,
            ),
        decreases len - i,
    {
        let (p, v) = entities[i];
        let nx = move_coord(p.x, v.x, delta_millis);
        let ny = move_coord(p.y, v.y, delta_millis);
        out.push((Position { x: nx, y: ny }, v));
        i += 1;
    }
    *entities = out;
}

} // verus!
