//! The spell table: schools, targets, effects, lookup by identifier, and the
//! limits that guard against pathological authored or saved values.

use crate::character::StatusEffectType;
use crate::data::lookup::{first_with_key, has_key, position_of_key, Keyed};
use vstd::prelude::*;

verus! {

/// Highest MP cost a spell is charged.
pub const MAX_SPELL_MP_COST: u32 = 999;

/// Highest power of a damage spell.
pub const MAX_SPELL_DAMAGE: u32 = 999;

/// Highest amount a heal or revive restores.
pub const MAX_SPELL_HEAL: u32 = 999;

/// Longest duration, in rounds, of a spell's status effect or buff.
pub const MAX_SPELL_DURATION: u32 = 99;

/// Most spells a character can know.
pub const KNOWN_SPELLS_MAX: usize = 64;

/// The school a spell belongs to.
#[derive(Clone, Copy, Debug, PartialEq, Eq, Structural)]
pub enum SpellSchool {
    Mage,
    Priest,
}

impl Default for SpellSchool {
    fn default() -> (r: Self)
        ensures
            r == SpellSchool::Mage,
    {
        SpellSchool::Mage
    }
}

/// Whom a spell can target.
#[derive(Clone, Copy, Debug, PartialEq, Eq, Structural)]
pub enum SpellTarget {
    SingleEnemy,
    AllEnemies,
    SingleAlly,
    AllAllies,
    Self_,
}

impl Default for SpellTarget {
    fn default() -> (r: Self)
        ensures
            r == SpellTarget::SingleEnemy,
    {
        SpellTarget::SingleEnemy
    }
}

/// What a spell does when it resolves. A potency is held as the bit pattern
/// of a non-negative single-precision number (see `ActiveEffect`).
#[derive(Debug)]
pub enum SpellEffect {
    /// Magical damage to each target.
    Damage { power: u32 },
    /// Restores HP to each target.
    Heal { amount: u32 },
    /// Applies a status condition to each target.
    ApplyStatus { effect: StatusEffectType, potency: u32, duration: Option<u32> },
    /// A stat buff on each target.
    Buff { effect: StatusEffectType, potency: u32, duration: u32 },
    /// Revives a dead ally with `hp` hit points.
    Revive { hp: u32 },
    /// An effect not implemented yet, named by a string.
    Special { variant: String },
}

impl Clone for SpellEffect {
    fn clone(&self) -> (r: Self)
        ensures
            r == *self,
    {
        match self {
            SpellEffect::Damage { power } => SpellEffect::Damage { power: *power },
            SpellEffect::Heal { amount } => SpellEffect::Heal { amount: *amount },
            SpellEffect::ApplyStatus { effect, potency, duration } => SpellEffect::ApplyStatus {
                effect: *effect,
                potency: *potency,
                duration: *duration,
            },
            SpellEffect::Buff { effect, potency, duration } => SpellEffect::Buff {
                effect: *effect,
                potency: *potency,
                duration: *duration,
            },
            SpellEffect::Revive { hp } => SpellEffect::Revive { hp: *hp },
            SpellEffect::Special { variant } => SpellEffect::Special { variant: variant.clone() },
        }
    }
}

impl Default for SpellEffect {
    fn default() -> (r: Self)
        ensures
            r == (SpellEffect::Damage { power: 0 }),
    {
        SpellEffect::Damage { power: 0 }
    }
}

/// One authored spell.
#[derive(Clone, Debug)]
pub struct SpellAsset {
    pub id: String,
    pub display_name: String,
    pub mp_cost: u32,
    /// The level the skill tree asks for; casting checks MP and Silence only.
    pub level: u32,
    pub school: SpellSchool,
    pub target: SpellTarget,
    pub effect: SpellEffect,
    pub description: String,
    pub icon_path: String,
}

impl Default for SpellAsset {
    fn default() -> (r: Self)
        ensures
            r.id@.len() == 0 && r.display_name@.len() == 0,
            r.description@.len() == 0 && r.icon_path@.len() == 0,
            r.mp_cost == 0 && r.level == 0,
            r.school == SpellSchool::Mage && r.target == SpellTarget::SingleEnemy,
            r.effect == (SpellEffect::Damage { power: 0 }),
    {
        SpellAsset {
            id: String::new(),
            display_name: String::new(),
            mp_cost: 0,
            level: 0,
            school: SpellSchool::default(),
            target: SpellTarget::default(),
            effect: SpellEffect::default(),
            description: String::new(),
            icon_path: String::new(),
        }
    }
}

impl Keyed for SpellAsset {
    open spec fn key(&self) -> Seq<char> {
        self.id@
    }

    fn key_ref(&self) -> (r: &String) {
        &self.id
    }
}

/// All authored spells.
#[derive(Clone, Debug)]
pub struct SpellDb {
    pub spells: Vec<SpellAsset>,
}

impl SpellDb {
    /// The first spell with identifier `id`, or `None` when there is none.
    pub fn get(&self, id: &str) -> (r: Option<&SpellAsset>)
        ensures
            r is None <==> !has_key(self.spells@, id@),
            r matches Some(sp) ==> *sp == self.spells@[first_with_key(self.spells@, id@)],
    {
        match position_of_key(&self.spells, id) {
            Some(j) => Some(&self.spells[j]),
            None => None,
        }
    }
}

/// Keeps the first `KNOWN_SPELLS_MAX` known spells and drops the rest.
pub fn clamp_known_spells(spells: &mut Vec<String>)
    ensures
        final(spells)@ == if old(spells)@.len() <= KNOWN_SPELLS_MAX {
            old(spells)@
        } else {
            old(spells)@.take(KNOWN_SPELLS_MAX as int)
        },
{
    spells.truncate(KNOWN_SPELLS_MAX);
}

} // verus!
