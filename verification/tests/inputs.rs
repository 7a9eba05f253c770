//! Tests of input translation, movement and happiness bookkeeping.

use baobei_needs::collisions::Movement;
use baobei_needs::constants::{GameState, SPEED};
use baobei_needs::happiness::Happiness;
use baobei_needs::inputs::{arrow_direction, key_direction, movement_from_direction, KeyInput};

#[test]
fn key_direction_maps_arrows_to_unit_vectors() {
    assert_eq!(key_direction(KeyInput::Up), (0, -1));
    assert_eq!(key_direction(KeyInput::Down), (0, 1));
    assert_eq!(key_direction(KeyInput::Left), (-1, 0));
    assert_eq!(key_direction(KeyInput::Right), (1, 0));
    assert_eq!(key_direction(KeyInput::Other), (0, 0));
}

#[test]
fn arrow_direction_combines_pressed_keys() {
    assert_eq!(arrow_direction(false, false, false, false), (0, 0));
    assert_eq!(arrow_direction(true, false, false, false), (0, 1));
    assert_eq!(arrow_direction(false, true, false, false), (0, -1));
    assert_eq!(arrow_direction(false, false, true, false), (-1, 0));
    assert_eq!(arrow_direction(false, false, false, true), (1, 0));
    // A diagonal.
    assert_eq!(arrow_direction(true, false, false, true), (1, 1));
    // Opposite keys cancel out.
    assert_eq!(arrow_direction(true, true, true, true), (0, 0));
}

#[test]
fn movement_scales_direction_by_time_and_speed() {
    // One 16 ms tick at the game speed covers 16 * 750 / 1000 = 12 pixels.
    let m = movement_from_direction(1, -1, 16, SPEED);
    assert_eq!(m, Movement { x: 12, y: -12 });

    // No time, no movement.
    let m = movement_from_direction(1, 1, 0, SPEED);
    assert_eq!(m, Movement { x: 0, y: 0 });

    // A still direction moves nowhere however long the tick.
    let m = movement_from_direction(0, 0, 1000, SPEED);
    assert_eq!(m, Movement { x: 0, y: 0 });
}

#[test]
fn happiness_is_clamped_to_its_range() {
    let mut h = Happiness::happy();
    assert_eq!(h.value(), 100);

    // Adding above 100 clamps.
    h.add(7);
    assert_eq!(h.value(), 100);

    // Subtracting below 0 clamps.
    h.sub(30);
    assert_eq!(h.value(), 70);
    h.sub(200);
    assert_eq!(h.value(), 0);

    h.add(15);
    assert_eq!(h.value(), 15);
}

#[test]
fn game_states_are_distinct() {
    assert_eq!(GameState::Menu, GameState::Menu);
    assert_ne!(GameState::Menu, GameState::InGame);
    let s = GameState::InGame;
    assert_eq!(s.clone(), GameState::InGame);
}
