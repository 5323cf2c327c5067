//! Turn-based combat: status effects, damage, targeting, enemy behaviour,
//! the action queue and round resolution, and the combat menu.

pub mod actions;
pub mod ai;
pub mod combat_log;
pub mod damage;
pub mod encounter;
pub mod enemy_visual;
pub mod menu;
pub mod missing_spells;
pub mod round;
pub mod spell_cast;
pub mod status_effects;
pub mod targeting;
pub mod turn_manager;
