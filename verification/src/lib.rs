//! Druum — the rules of a first-person grid dungeon crawler, as a verified
//! library: character status effects, combat resolution, enemy behaviour,
//! dungeon movement and cell features, and the static game-data tables.
//!
//! The engine layer (rendering, audio playback, input devices, the ECS
//! schedule) belongs to the game program; everything that decides what
//! happens in the game lives here, each function with its contract.

pub mod character;
pub mod combat;
pub mod data;
pub mod dungeon;
pub mod ecs;
pub mod game;
pub mod rng;
pub mod text;
