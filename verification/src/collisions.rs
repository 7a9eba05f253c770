//! Components and systems permitting to move and collide entities.

use vstd::prelude::*;

verus! {

/// Absolute position of an entity, in whole pixels. `x` and `y` locate the
/// entity in the gameplay plane; `z` is a height above the ground used only
/// for rendering, never for collision.
#[derive(Clone, Copy, Debug, PartialEq, Eq, Structural)]
pub struct Position {
    /// Horizontal coordinate.
    pub x: i32,
    /// Vertical coordinate.
    pub y: i32,
    /// Height above the ground.
    pub z: i32,
}

/// Delta of the next movement the entity will make, in pixels. Consumed and
/// reset to zero by the collision-resolution system every tick.
#[derive(Clone, Copy, Debug, PartialEq, Eq, Structural)]
pub struct Movement {
    /// Horizontal displacement.
    pub x: i32,
    /// Vertical displacement.
    pub y: i32,
}

impl Default for Movement {
    /// The zero movement.
    fn default() -> (m: Movement)
        ensures
            m.x == 0,
            m.y == 0,
    {
        Movement { x: 0, y: 0 }
    }
}

/// Collider in the shape of a rectangle, blocking the movement of moving
/// entities.
#[derive(Clone, Copy, Debug, PartialEq, Eq, Structural)]
pub struct BoxCollider {
    /// The full width of the box.
    pub width: i32,
    /// The full height of the box.
    pub height: i32,
    /// Horizontal offset of the box from the entity's position.
    pub offset_x: i32,
    /// Vertical offset of the box from the entity's position.
    pub offset_y: i32,
}

impl BoxCollider {
    /// Creates a box collider with the given size and no offset.
    pub fn new(width: i32, height: i32) -> (c: BoxCollider)
        ensures
            c == (BoxCollider { width, height, offset_x: 0, offset_y: 0 }),
    {
        BoxCollider { width, height, offset_x: 0, offset_y: 0 }
    }
}

/// A rectangle area that can be contacted without collision.
#[derive(Clone, Copy, Debug, PartialEq, Eq, Structural)]
pub struct TriggerArea {
    /// The full width of the area.
    pub width: i32,
    /// The full height of the area.
    pub height: i32,
}

impl TriggerArea {
    /// Creates a trigger area with the given size.
    pub fn new(width: i32, height: i32) -> (a: TriggerArea)
        ensures
            a == (TriggerArea { width, height }),
    {
        TriggerArea { width, height }
    }
}

/// Whether two axis-aligned boxes, centered at `(ax, ay)` and `(bx, by)` with
/// the given full widths and heights, strictly overlap. Boxes that merely
/// touch at an edge do not overlap: the comparison is strict, so a box
/// resting against another is not reported as colliding.
///
/// The comparisons are carried out on coordinates doubled once, which keeps
/// the half-extent arithmetic exact over the integers.
pub open spec fn overlaps_at(
    ax: int,
    ay: int,
    aw: int,
    ah: int,
    bx: int,
    by: int,
    bw: int,
    bh: int,
) -> bool {
    &&& 2 * ax - aw < 2 * bx + bw
    &&& 2 * bx - bw < 2 * ax + aw
    &&& 2 * ay - ah < 2 * by + bh
    &&& 2 * by - bh < 2 * ay + ah
}

/// Strict overlap test on raw coordinates. Inputs are bounded so that the
/// doubled coordinates fit in an `i64`.
fn overlap_raw(ax: i64, ay: i64, aw: i64, ah: i64, bx: i64, by: i64, bw: i64, bh: i64) -> (r: bool)
    requires
        -0x2_0000_0000 <= ax <= 0x2_0000_0000,
        -0x2_0000_0000 <= ay <= 0x2_0000_0000,
        -0x2_0000_0000 <= aw <= 0x2_0000_0000,
        -0x2_0000_0000 <= ah <= 0x2_0000_0000,
        -0x2_0000_0000 <= bx <= 0x2_0000_0000,
        -0x2_0000_0000 <= by <= 0x2_0000_0000,
        -0x2_0000_0000 <= bw <= 0x2_0000_0000,
        -0x2_0000_0000 <= bh <= 0x2_0000_0000,
    ensures
        r == overlaps_at(ax as int, ay as int, aw as int, ah as int, bx as int, by as int, bw as int, bh as int),
{
    2 * ax - aw < 2 * bx + bw && 2 * bx - bw < 2 * ax + aw && 2 * ay - ah < 2 * by + bh
        && 2 * by - bh < 2 * ay + ah
}

/// An entity that moves this tick: its position, its blocking collider and
/// its pending movement.
#[derive(Clone, Copy, Debug, PartialEq, Eq, Structural)]
pub struct MovingCollider {
    /// Where the entity currently stands.
    pub position: Position,
    /// The blocking box attached to it.
    pub collider: BoxCollider,
    /// The displacement it intends to make this tick.
    pub movement: Movement,
}

/// A static obstacle: an entity with a position and a blocking collider but
/// no movement, such as furniture or a boundary wall.
#[derive(Clone, Copy, Debug, PartialEq, Eq, Structural)]
pub struct StaticCollider {
    /// Where the obstacle stands.
    pub position: Position,
    /// The blocking box attached to it.
    pub collider: BoxCollider,
}

/// Whether the box of collider `c`, placed at `(x, y)` with its offset
/// applied, overlaps at least one static collider (each with its own offset
/// applied).
pub open spec fn blocked_at(x: int, y: int, c: BoxCollider, statics: Seq<StaticCollider>) -> bool {
    exists|j: int|
        0 <= j < statics.len() && overlaps_at(
            x + c.offset_x,
            y + c.offset_y,
            c.width as int,
            c.height as int,
            statics[j].position.x + statics[j].collider.offset_x,
            statics[j].position.y + statics[j].collider.offset_y,
            statics[j].collider.width as int,
            statics[j].collider.height as int,
        )
}

/// The x coordinate after resolving the x component of the movement alone:
/// the step is committed only if no static collider blocks it.
pub open spec fn resolved_x(m: MovingCollider, statics: Seq<StaticCollider>) -> int {
    if blocked_at(m.position.x + m.movement.x, m.position.y as int, m.collider, statics) {
        m.position.x as int
    } else {
        m.position.x + m.movement.x
    }
}

/// The y coordinate after resolving the y component of the movement, tested
/// at the x coordinate that the x resolution committed.
pub open spec fn resolved_y(m: MovingCollider, statics: Seq<StaticCollider>) -> int {
    if blocked_at(resolved_x(m, statics), m.position.y + m.movement.y, m.collider, statics) {
        m.position.y as int
    } else {
        m.position.y + m.movement.y
    }
}

/// The whole entity after one tick of collision resolution: each axis is
/// resolved on its own and the movement is reset to zero.
pub open spec fn resolved(m: MovingCollider, statics: Seq<StaticCollider>) -> MovingCollider {
    MovingCollider {
        position: Position {
            x: resolved_x(m, statics) as i32,
            y: resolved_y(m, statics) as i32,
            z: m.position.z,
        },
        collider: m.collider,
        movement: Movement { x: 0, y: 0 },
    }
}

/// Whether the intended displacement of `m` stays within the machine range
/// of coordinates.
pub open spec fn movement_fits(m: MovingCollider) -> bool {
    &&& i32::MIN <= m.position.x + m.movement.x <= i32::MAX
    &&& i32::MIN <= m.position.y + m.movement.y <= i32::MAX
}

/// Whether the box of collider `c` placed at `(x, y)` overlaps some static
/// collider.
fn is_blocked(x: i32, y: i32, c: &BoxCollider, statics: &Vec<StaticCollider>) -> (r: bool)
    ensures
        r == blocked_at(x as int, y as int, *c, statics@),
{
    let n = statics.len();
    let mut j: usize = 0;
    while j < n
        invariant
            n == statics@.len(),
            0 <= j <= n,
            forall|i: int|
                0 <= i < j ==> !overlaps_at(
                    x + c.offset_x,
                    y + c.offset_y,
                    c.width as int,
                    c.height as int,
                    (#[trigger] statics@[i]).position.x + statics@[i].collider.offset_x,
                    statics@[i].position.y + statics@[i].collider.offset_y,
                    statics@[i].collider.width as int,
                    statics@[i].collider.height as int,
                ),
        decreases n - j,
    {
        let s = &statics[j];
        if overlap_raw(
            x as i64 + c.offset_x as i64,
            y as i64 + c.offset_y as i64,
            c.width as i64,
            c.height as i64,
            s.position.x as i64 + s.collider.offset_x as i64,
            s.position.y as i64 + s.collider.offset_y as i64,
            s.collider.width as i64,
            s.collider.height as i64,
        ) {
            return true;
        }
        j += 1;
    }
    false
}

/// Moves the position of every moving entity by its pending movement, as far
/// as the static colliders allow, and resets the movement to zero.
///
/// The collision is checked for the x and y axes separately: first the x
/// step is tested (at the unchanged y) and committed when no static collider
/// blocks it, then the y step is tested at the committed x. In a diagonal
/// movement one axis can therefore still advance while the other is blocked,
/// which lets the entity slide along a wall.
pub fn collision_system(moving: &mut Vec<MovingCollider>, statics: &Vec<StaticCollider>)
    requires
        forall|k: int| 0 <= k < old(moving)@.len() ==> movement_fits(#[trigger] old(moving)@[k]),
    ensures
        final(moving)@.len() == old(moving)@.len(),
        forall|k: int|
            0 <= k < old(moving)@.len() ==> final(moving)@[k] == resolved(
                #[trigger] old(moving)@[k],
                statics@,
            ),
{
    let len = moving.len();
    let mut out: Vec<MovingCollider> = Vec::new();
    let mut i: usize = 0;
    while i < len
        invariant
            len == moving@.len(),
            moving@ == old(moving)@,
            forall|k: int| 0 <= k < len ==> movement_fits(#[trigger] moving@[k]),
            0 <= i <= len,
            out@.len() == i,
            forall|k: int| 0 <= k < i ==> out@[k] == resolved(#[trigger] moving@[k], statics@),
        decreases len - i,
    {
        let pos = moving[i].position;
        let col = moving[i].collider;
        let mov = moving[i].movement;

        let next_x = pos.x + mov.x;
        let new_x = if is_blocked(next_x, pos.y, &col, statics) {
            pos.x
        } else {
            next_x
        };

        let next_y = pos.y + mov.y;
        let new_y = if is_blocked(new_x, next_y, &col, statics) {
            pos.y
        } else {
            next_y
        };

        out.push(
            MovingCollider {
                position: Position { x: new_x, y: new_y, z: pos.z },
                collider: col,
                movement: Movement { x: 0, y: 0 },
            },
        );
        i += 1;
    }
    *moving = out;
}

/// Law: a diagonal movement whose x component alone is blocked, and whose y
/// component is free at the unchanged x, resolves to the old x and the fully
/// advanced y — the entity slides along the wall instead of stopping.
pub proof fn lemma_axis_independent_sliding(m: MovingCollider, statics: Seq<StaticCollider>)
    requires
        movement_fits(m),
        blocked_at(m.position.x + m.movement.x, m.position.y as int, m.collider, statics),
        !blocked_at(m.position.x as int, m.position.y + m.movement.y, m.collider, statics),
    ensures
        resolved(m, statics).position.x == m.position.x,
        resolved(m, statics).position.y == m.position.y + m.movement.y,
{
}

/// Returns whether two axis-aligned boxes centered at `a_pos` and `b_pos`
/// with the given full sizes overlap. Touching edges are treated as not
/// colliding. The `z` coordinates are ignored.
pub fn collide(a_pos: Position, a_width: i32, a_height: i32, b_pos: Position, b_width: i32, b_height: i32) -> (r: bool)
    ensures
        r == overlaps_at(
            a_pos.x as int,
            a_pos.y as int,
            a_width as int,
            a_height as int,
            b_pos.x as int,
            b_pos.y as int,
            b_width as int,
            b_height as int,
        ),
{
    overlap_raw(
        a_pos.x as i64,
        a_pos.y as i64,
        a_width as i64,
        a_height as i64,
        b_pos.x as i64,
        b_pos.y as i64,
        b_width as i64,
        b_height as i64,
    )
}

} // verus!
