//! Simulation core of a turn-based stealth game: a procedural mansion
//! generator, a tile-grid world model with line-of-sight and sound
//! propagation, weighted distance-field pathing, and a guard state-machine
//! that patrols, investigates and chases the player.

pub mod cell_grid;
pub mod coord;
pub mod game;
pub mod grid;
pub mod guard;
pub mod guard_act;
pub mod map;
pub mod pathing;
pub mod random_map;
pub mod rng;
pub mod speech_bubbles;
pub mod visibility;
