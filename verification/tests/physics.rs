//! Tests of the velocity integration.

use baobei_needs::physics::{update, Position, Velocity};

/// Positions and velocities are in thousandths of a unit, so a delta of
/// half a second moves an entity by half its velocity.
#[test]
fn it_updates_position_using_velocity_and_delta_time() {
    let mut entities = vec![
        (Position { x: 0, y: 0 }, Velocity { x: 0, y: 0 }),
        (Position { x: 1000, y: 1000 }, Velocity { x: 1000, y: 2000 }),
        (Position { x: 2000, y: 3000 }, Velocity { x: 2000, y: 1000 }),
    ];

    update(&mut entities, 500);

    // Assert updated positions
    assert_eq!(entities[0].0, Position { x: 0, y: 0 });
    assert_eq!(entities[1].0, Position { x: 1500, y: 2000 });
    assert_eq!(entities[2].0, Position { x: 3000, y: 3500 });
    assert_eq!(entities.len(), 3);
}

#[test]
fn update_rounds_toward_zero_for_negative_velocities() {
    let mut entities = vec![(Position { x: 0, y: 0 }, Velocity { x: -1, y: 1 })];

    update(&mut entities, 500);

    // -1 * 500 / 1000 rounds toward zero.
    assert_eq!(entities[0].0, Position { x: 0, y: 0 });

    let mut entities = vec![(Position { x: 0, y: 0 }, Velocity { x: -4, y: 4 })];
    update(&mut entities, 500);
    assert_eq!(entities[0].0, Position { x: -2, y: 2 });
}
