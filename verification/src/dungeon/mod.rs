//! Dungeon exploration: the floor grid, movement, doors, cell features and
//! the plan of the floor's geometry.

pub mod floor;
pub mod movement;
pub mod features;
pub mod geometry;
pub mod arrival;
