//! Tests of the overlap test and the movement-resolution system.

use baobei_needs::collisions::{
    collide, collision_system, BoxCollider, Movement, MovingCollider, Position, StaticCollider,
};

fn at(x: i32, y: i32) -> Position {
    Position { x, y, z: 0 }
}

#[test]
fn collide_reports_strict_overlap() {
    // Two 10x10 boxes 5 apart overlap.
    assert!(collide(at(0, 0), 10, 10, at(5, 0), 10, 10));
    // Identical boxes overlap.
    assert!(collide(at(3, 4), 10, 10, at(3, 4), 10, 10));
    // Boxes 20 apart do not.
    assert!(!collide(at(0, 0), 10, 10, at(20, 0), 10, 10));
    // Overlap needs both axes.
    assert!(!collide(at(0, 0), 10, 10, at(5, 30), 10, 10));
}

#[test]
fn collide_treats_touching_edges_as_not_colliding() {
    // Boxes exactly 10 apart touch edges: not a collision.
    assert!(!collide(at(0, 0), 10, 10, at(10, 0), 10, 10));
    assert!(!collide(at(0, 0), 10, 10, at(0, 10), 10, 10));
    // One closer, and they collide.
    assert!(collide(at(0, 0), 10, 10, at(9, 0), 10, 10));
}

#[test]
fn diagonal_movement_slides_along_a_blocking_wall() {
    // A wall to the right blocks the x step; the y step stays free.
    let mut moving = vec![MovingCollider {
        position: at(0, 0),
        collider: BoxCollider::new(10, 10),
        movement: Movement { x: 10, y: 7 },
    }];
    let statics = vec![StaticCollider {
        position: at(15, 0),
        collider: BoxCollider::new(10, 10),
    }];

    collision_system(&mut moving, &statics);

    assert_eq!(moving[0].position, at(0, 7));
    assert_eq!(moving[0].movement, Movement { x: 0, y: 0 });
}

#[test]
fn unobstructed_movement_advances_on_both_axes() {
    let mut moving = vec![MovingCollider {
        position: at(0, 0),
        collider: BoxCollider::new(10, 10),
        movement: Movement { x: 3, y: -4 },
    }];
    let statics = vec![StaticCollider {
        position: at(100, 100),
        collider: BoxCollider::new(10, 10),
    }];

    collision_system(&mut moving, &statics);

    assert_eq!(moving[0].position, at(3, -4));
    assert_eq!(moving[0].movement, Movement { x: 0, y: 0 });
}

#[test]
fn movement_blocked_on_both_axes_stays_put() {
    // The mover is surrounded: any step on either axis collides.
    let mut moving = vec![MovingCollider {
        position: at(0, 0),
        collider: BoxCollider::new(10, 10),
        movement: Movement { x: 5, y: 5 },
    }];
    let statics = vec![
        StaticCollider {
            position: at(12, 0),
            collider: BoxCollider::new(10, 10),
        },
        StaticCollider {
            position: at(0, 12),
            collider: BoxCollider::new(10, 10),
        },
    ];

    collision_system(&mut moving, &statics);

    assert_eq!(moving[0].position, at(0, 0));
}

#[test]
fn collider_offsets_shift_the_blocking_test() {
    // The static box alone would not block, but its offset moves it into
    // the mover's path.
    let mut moving = vec![MovingCollider {
        position: at(0, 0),
        collider: BoxCollider::new(10, 10),
        movement: Movement { x: 10, y: 0 },
    }];
    let statics = vec![StaticCollider {
        position: at(40, 0),
        collider: BoxCollider {
            width: 10,
            height: 10,
            offset_x: -25,
            offset_y: 0,
        },
    }];

    collision_system(&mut moving, &statics);

    assert_eq!(moving[0].position, at(0, 0));
}

#[test]
fn entities_with_zero_movement_keep_their_position() {
    let mut moving = vec![MovingCollider {
        position: at(7, 8),
        collider: BoxCollider::new(10, 10),
        movement: Movement { x: 0, y: 0 },
    }];
    let statics: Vec<StaticCollider> = Vec::new();

    collision_system(&mut moving, &statics);

    assert_eq!(moving[0].position, at(7, 8));
}
