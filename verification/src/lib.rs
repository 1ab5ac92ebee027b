//! Procedural levels and their progression: a grid generator, the spawner
//! that turns a grid into placements in the world, the controller that keeps
//! track of the current and the previous level, and the pass control of the
//! movement resolver.

pub mod census;
pub mod config;
pub mod count;
pub mod doors;
pub mod generator;
pub mod grid;
pub mod movement;
pub mod progression;
pub mod random;
pub mod spawner;
pub mod spawns;
pub mod tutorial;
pub mod walls;
