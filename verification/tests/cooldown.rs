//! Tests of the cooldown timer.

use baobei_needs::cooldown::Cooldown;

#[test]
fn test_cooldown() {
    let mut cd = Cooldown::from_millis(2000);
    assert_eq!(cd.available(), true);

    // Start the cooldown
    cd.start();
    assert_eq!(cd.available(), false);
    assert_eq!(cd.tick(750), false);
    assert_eq!(cd.tick(1500), true);
    assert_eq!(cd.tick(10000), true);

    // Re-start the cooldown
    cd.start();
    assert_eq!(cd.available(), false);
    assert_eq!(cd.tick(750), false);
    assert_eq!(cd.tick(750), false);
    assert_eq!(cd.tick(750), true);
}

#[test]
fn cooldown_counts_down_and_clamps() {
    let mut cd = Cooldown::from_millis(200);
    cd.start();
    assert!(!cd.tick(0));
    assert!(!cd.tick(199));
    // Reaching the duration exactly flips it available, clamped at zero.
    assert!(cd.tick(1));
    assert!(cd.available());
    // Further ticks change nothing.
    assert!(cd.tick(1000));
    assert!(cd.available());
}

#[test]
fn cooldown_of_zero_duration_becomes_available_on_first_tick() {
    let mut cd = Cooldown::from_millis(0);
    cd.start();
    assert!(!cd.available());
    assert!(cd.tick(0));
}
