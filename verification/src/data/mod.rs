//! Static game-data tables and the rules that read them.

pub mod classes;
pub mod encounters;
pub mod enemies;
pub mod items;
pub mod lookup;
pub mod races;
pub mod skills;
pub mod spells;
pub mod town;
