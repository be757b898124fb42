//! Core of a turn-based, grid-based space exploration and combat game.
//!
//! The crate owns the turn-resolution pipeline: a finite-state-machine-driven
//! sequence that advances game time, runs pathfinding-driven pirate decisions,
//! resolves melee combat, applies accumulated damage, removes dead entities and
//! regenerates health, each phase reading and mutating a shared spatial world
//! model under explicit ordering guarantees.

pub mod ai;
pub mod combat;
pub mod components;
pub mod damage;
pub mod input;
pub mod log;
pub mod map;
pub mod map_builders;
pub mod pathing;
pub mod rng;
pub mod spawner;
pub mod state;
pub mod time;
pub mod world;
