//! Core simulation of a small 2D room game: entities move inside a room,
//! collide with furniture and walls, touch trigger areas, and the player
//! picks up, drops and gives items, gated by a cooldown.
//!
//! Geometry and time are modelled with integers: positions and box sizes
//! are whole pixels, durations are milliseconds. The host shell converts
//! at its edges.

pub mod collisions;
pub mod constants;
pub mod contacts;
pub mod cooldown;
pub mod happiness;
pub mod inputs;
pub mod items;
pub mod physics;
pub mod publisher;
