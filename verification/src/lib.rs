//! Game rules of Handgun Heroes, a small first-person target shooter.
//!
//! The engine owns entities, physics, input and rendering. This crate holds
//! what the game itself decides: where enemies appear, how the wave grows,
//! what a shot or a collision does to score, kills and health, and when the
//! game changes state. Entities are known here by the 64 bits of their
//! engine identifier.

pub mod dice;
pub mod enemy;
pub mod global_physics;
pub mod globals;
pub mod hud;
pub mod player;
pub mod ui;
