//! The enemy roster: identity, stats, behaviour and placeholder colour of
//! each enemy kind, and lookup by identifier.

use crate::character::{BaseStats, DerivedStats};
use crate::combat::ai::EnemyAi;
use crate::data::lookup::{first_with_key, has_key, position_of_key, Keyed};
use vstd::prelude::*;

verus! {

/// One enemy kind.
#[derive(Clone, Debug)]
pub struct EnemyDefinition {
    pub id: String,
    pub display_name: String,
    pub base_stats: BaseStats,
    pub derived_stats: DerivedStats,
    pub ai: EnemyAi,
    /// Placeholder colour (red, green, blue, each from 0 to 1), each channel
    /// held as the bit pattern of a single-precision number.
    pub placeholder_color: [u32; 3],
    pub sprite_path: Option<String>,
}

impl Keyed for EnemyDefinition {
    open spec fn key(&self) -> Seq<char> {
        self.id@
    }

    fn key_ref(&self) -> (r: &String) {
        &self.id
    }
}

/// The enemy roster.
#[derive(Clone, Debug)]
pub struct EnemyDb {
    pub enemies: Vec<EnemyDefinition>,
}

impl EnemyDb {
    /// The first enemy kind with identifier `id`; an empty identifier finds
    /// nothing.
    pub fn find(&self, id: &str) -> (r: Option<&EnemyDefinition>)
        ensures
            r is None <==> (id@.len() == 0 || !has_key(self.enemies@, id@)),
            r matches Some(e) ==> *e == self.enemies@[first_with_key(self.enemies@, id@)],
    {
        if id.unicode_len() == 0 {
            return None;
        }
        match position_of_key(&self.enemies, id) {
            Some(j) => Some(&self.enemies[j]),
            None => None,
        }
    }
}

} // verus!
