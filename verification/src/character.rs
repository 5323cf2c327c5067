//! Character data shared by party members and enemies: derived combat stats,
//! formation row, and the list of active status effects.

use vstd::prelude::*;

verus! {

/// Identifier of a combatant (a party member or an enemy).
pub type EntityId = u64;

/// Formation row. Front-row melee cannot reach the enemy back row.
#[derive(Clone, Copy, Debug, PartialEq, Eq, Structural)]
pub enum PartyRow {
    Front,
    Back,
}

impl Default for PartyRow {
    fn default() -> (r: Self)
        ensures
            r == PartyRow::Front,
    {
        PartyRow::Front
    }
}

/// Character class.
#[derive(Clone, Copy, Debug, PartialEq, Eq, Structural)]
pub enum Class {
    Fighter,
    Mage,
    Priest,
    Thief,
    Bishop,
    Samurai,
    Lord,
    Ninja,
}

/// Character race.
#[derive(Clone, Copy, Debug, PartialEq, Eq, Structural)]
pub enum Race {
    Human,
    Elf,
    Dwarf,
    Gnome,
    Hobbit,
}

/// The six primary attributes of a character.
#[derive(Clone, Copy, Debug, PartialEq, Eq, Structural)]
pub struct BaseStats {
    pub strength: u16,
    pub intelligence: u16,
    pub piety: u16,
    pub vitality: u16,
    pub agility: u16,
    pub luck: u16,
}

impl BaseStats {
    /// All attributes zero.
    pub fn zero() -> (r: Self)
        ensures
            r.strength == 0 && r.intelligence == 0 && r.piety == 0,
            r.vitality == 0 && r.agility == 0 && r.luck == 0,
    {
        BaseStats { strength: 0, intelligence: 0, piety: 0, vitality: 0, agility: 0, luck: 0 }
    }
}

/// Combat stats derived from attributes and equipment.
#[derive(Clone, Copy, Debug, PartialEq, Eq, Structural)]
pub struct DerivedStats {
    pub max_hp: u32,
    pub current_hp: u32,
    pub max_mp: u32,
    pub current_mp: u32,
    pub attack: u32,
    pub defense: u32,
    pub magic_attack: u32,
    pub magic_defense: u32,
    pub speed: u32,
    pub accuracy: u32,
    pub evasion: u32,
}

impl DerivedStats {
    /// All stats zero.
    pub open spec fn zero_spec() -> Self {
        DerivedStats {
            max_hp: 0,
            current_hp: 0,
            max_mp: 0,
            current_mp: 0,
            attack: 0,
            defense: 0,
            magic_attack: 0,
            magic_defense: 0,
            speed: 0,
            accuracy: 0,
            evasion: 0,
        }
    }

    /// All stats zero.
    pub fn zero() -> (r: Self)
        ensures
            r == Self::zero_spec(),
    {
        DerivedStats {
            max_hp: 0,
            current_hp: 0,
            max_mp: 0,
            current_mp: 0,
            attack: 0,
            defense: 0,
            magic_attack: 0,
            magic_defense: 0,
            speed: 0,
            accuracy: 0,
            evasion: 0,
        }
    }
}

/// The kinds of status effect.
#[derive(Clone, Copy, Debug, PartialEq, Eq, Structural)]
pub enum StatusEffectType {
    Poison,
    Sleep,
    Paralysis,
    Stone,
    Dead,
    AttackUp,
    DefenseUp,
    SpeedUp,
    Regen,
    Silence,
}

/// Effects that never expire: re-applying one that is present changes nothing.
pub open spec fn is_permanent(t: StatusEffectType) -> bool {
    t == StatusEffectType::Stone || t == StatusEffectType::Dead
}

/// Buffs whose expiry changes the derived stats.
pub open spec fn is_stat_modifier(t: StatusEffectType) -> bool {
    t == StatusEffectType::AttackUp || t == StatusEffectType::DefenseUp || t
        == StatusEffectType::SpeedUp
}

/// Effects whose application changes the derived stats.
pub open spec fn is_stat_affecting(t: StatusEffectType) -> bool {
    is_stat_modifier(t) || t == StatusEffectType::Dead
}

/// `true` for the effects that never expire (Stone, Dead).
pub fn permanent(t: StatusEffectType) -> (r: bool)
    ensures
        r == is_permanent(t),
{
    t == StatusEffectType::Stone || t == StatusEffectType::Dead
}

/// `true` for AttackUp, DefenseUp and SpeedUp.
pub fn stat_modifier(t: StatusEffectType) -> (r: bool)
    ensures
        r == is_stat_modifier(t),
{
    t == StatusEffectType::AttackUp || t == StatusEffectType::DefenseUp || t
        == StatusEffectType::SpeedUp
}

/// One active status effect.
///
/// `magnitude` is the potency of the effect, held as the bit pattern of a
/// non-negative single-precision number: for such numbers the bit patterns,
/// read as unsigned integers, are ordered exactly as the numbers are, so
/// "the higher magnitude" is the larger `u32`.
#[derive(Clone, Copy, Debug, PartialEq, Eq, Structural)]
pub struct ActiveEffect {
    pub effect_type: StatusEffectType,
    /// `None` for a permanent effect; `Some(n)` for `n` more ticks.
    pub remaining_turns: Option<u32>,
    pub magnitude: u32,
}

/// The status effects currently on one character, in the order applied.
#[derive(Debug)]
pub struct StatusEffects {
    pub effects: Vec<ActiveEffect>,
}

impl Clone for StatusEffects {
    fn clone(&self) -> (r: Self)
        ensures
            r.effects@ == self.effects@,
    {
        let mut out: Vec<ActiveEffect> = Vec::new();
        let mut i: usize = 0;
        while i < self.effects.len()
            invariant
                0 <= i <= self.effects@.len(),
                out@ == self.effects@.take(i as int),
            decreases self.effects@.len() - i,
        {
            out.push(self.effects[i]);
            i = i + 1;
            assert(out@ == self.effects@.take(i as int));
        }
        assert(out@ == self.effects@);
        StatusEffects { effects: out }
    }
}

/// `s` holds an effect of type `t`.
pub open spec fn holds(s: Seq<ActiveEffect>, t: StatusEffectType) -> bool {
    exists|i: int| 0 <= i < s.len() && (#[trigger] s[i]).effect_type == t
}

/// The index of the first effect of type `t` in `s`, or `s.len()` if none.
pub open spec fn first_of(s: Seq<ActiveEffect>, t: StatusEffectType) -> int
    decreases s.len(),
{
    if s.len() == 0 {
        0
    } else if s[0].effect_type == t {
        0
    } else {
        1 + first_of(s.drop_first(), t)
    }
}

pub proof fn lemma_first_of(s: Seq<ActiveEffect>, t: StatusEffectType)
    ensures
        0 <= first_of(s, t) <= s.len(),
        first_of(s, t) < s.len() <==> holds(s, t),
        first_of(s, t) < s.len() ==> s[first_of(s, t)].effect_type == t,
        forall|j: int| 0 <= j < first_of(s, t) ==> (#[trigger] s[j]).effect_type != t,
    decreases s.len(),
{
    if s.len() > 0 && s[0].effect_type != t {
        lemma_first_of(s.drop_first(), t);
        assert forall|j: int| 0 <= j < first_of(s, t) implies (#[trigger] s[j]).effect_type
            != t by {
            if j > 0 {
                assert(s[j] == s.drop_first()[j - 1]);
            }
        }
        if holds(s, t) {
            let i = choose|i: int| 0 <= i < s.len() && (#[trigger] s[i]).effect_type == t;
            assert(s.drop_first()[i - 1] == s[i]);
        }
        if holds(s.drop_first(), t) {
            let i = choose|i: int|
                0 <= i < s.drop_first().len() && (#[trigger] s.drop_first()[i]).effect_type == t;
            assert(s[i + 1] == s.drop_first()[i]);
        }
    }
}

impl StatusEffects {
    /// No effects.
    pub fn new() -> (r: Self)
        ensures
            r.effects@ == Seq::<ActiveEffect>::empty(),
    {
        StatusEffects { effects: Vec::new() }
    }

    /// The index of the first effect of type `t`, if any.
    pub fn position(&self, t: StatusEffectType) -> (r: Option<usize>)
        ensures
            r is None <==> !holds(self.effects@, t),
            r matches Some(i) ==> i == first_of(self.effects@, t),
    {
        proof {
            lemma_first_of(self.effects@, t);
        }
        let mut i: usize = 0;
        while i < self.effects.len()
            invariant
                0 <= i <= self.effects@.len(),
                i <= first_of(self.effects@, t),
                forall|j: int| 0 <= j < first_of(self.effects@, t) ==> (
                #[trigger] self.effects@[j]).effect_type != t,
                first_of(self.effects@, t) < self.effects@.len() ==> self.effects@[first_of(
                    self.effects@,
                    t,
                )].effect_type == t,
                first_of(self.effects@, t) < self.effects@.len() <==> holds(self.effects@, t),
            decreases self.effects@.len() - i,
        {
            if self.effects[i].effect_type == t {
                return Some(i);
            }
            i = i + 1;
        }
        None
    }

    /// `true` when an effect of type `t` is active.
    pub fn has(&self, t: StatusEffectType) -> (r: bool)
        ensures
            r == holds(self.effects@, t),
    {
        self.position(t).is_some()
    }
}

} // verus!
