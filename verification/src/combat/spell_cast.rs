//! Magical damage for one damage spell, and the MP check and charge.
//!
//! Damage before variance is `magic_attack + power - magic_defense / 2`, at
//! least 1; spells never miss and ignore rows. The variance (70 to 100
//! percent) and the critical factor 1.5 are applied in single precision by
//! the caller's `scale` function.

use crate::character::{DerivedStats, StatusEffects};
use crate::combat::damage::crit_chance;
use crate::data::spells::{SpellAsset, SpellEffect, MAX_SPELL_DAMAGE, MAX_SPELL_MP_COST};
use crate::rng::{random_below, random_inclusive};
use crate::text::{decimal, push_decimal};
use rand::rngs::SmallRng;
use vstd::prelude::*;
use vstd::string::*;

verus! {

/// What the spell rules read of a caster or a target.
#[derive(Clone, Debug)]
pub struct SpellCombatant {
    pub name: String,
    pub stats: DerivedStats,
    pub status: StatusEffects,
}

/// The outcome of one spell-damage calculation.
#[derive(Clone, Debug)]
pub struct SpellDamageResult {
    pub damage: u32,
    pub critical: bool,
    pub message: String,
}

impl View for SpellDamageResult {
    type V = (u32, bool, Seq<char>);

    open spec fn view(&self) -> (u32, bool, Seq<char>) {
        (self.damage, self.critical, self.message@)
    }
}

/// Damage before variance: `magic_attack + min(power, MAX_SPELL_DAMAGE) -
/// min(magic_defense, 180) / 2`, at least 1, as a 32-bit value (a sum past
/// `u32::MAX` wraps).
pub open spec fn spell_raw_damage(magic_attack: u32, power: u32, magic_defense: u32) -> u32 {
    let p = if power <= MAX_SPELL_DAMAGE { power as int } else { MAX_SPELL_DAMAGE as int };
    let d = if magic_defense <= 180 { magic_defense as int } else { 180 };
    let r = magic_attack + p - d / 2;
    let r1 = if r >= 1 { r } else { 1 };
    (r1 % 0x1_0000_0000) as u32
}

pub open spec fn non_damage_spell_message(c: Seq<char>, s: Seq<char>) -> Seq<char> {
    c + " uses "@ + s + " (non-damage effect)."@
}

pub open spec fn spell_hit_message(
    c: Seq<char>,
    s: Seq<char>,
    t: Seq<char>,
    damage: nat,
    critical: bool,
) -> Seq<char> {
    c + " casts "@ + s + " on "@ + t + " for "@ + decimal(damage) + " damage"@ + (if critical {
        " (CRITICAL)"@
    } else {
        ""@
    }) + "."@
}

/// The outcome of a damage spell of `power`, given the critical roll (a
/// draw below 100) and the damage after variance and critical scaling.
pub open spec fn spell_view(
    caster: SpellCombatant,
    target: SpellCombatant,
    spell_name: Seq<char>,
    crit_roll: u32,
    scaled: u32,
) -> (u32, bool, Seq<char>) {
    let critical = crit_roll < crit_chance(caster.stats.accuracy);
    let damage: u32 = if scaled >= 1 { scaled } else { 1 };
    (damage, critical, spell_hit_message(caster.name@, spell_name, target.name@, damage as nat, critical))
}

/// `r` is the outcome of the spell of `power` for these draws and a result
/// `scaled` of `scale`.
pub open spec fn spell_outcome<F: Fn(u32, u32, bool) -> u32>(
    caster: SpellCombatant,
    target: SpellCombatant,
    spell_name: Seq<char>,
    power: u32,
    scale: F,
    r: (u32, bool, Seq<char>),
    variance: u32,
    crit_roll: u32,
    scaled: u32,
) -> bool {
    &&& 70 <= variance <= 100 && crit_roll < 100
    &&& call_ensures(
        scale,
        (
            spell_raw_damage(caster.stats.magic_attack, power, target.stats.magic_defense),
            variance,
            crit_roll < crit_chance(caster.stats.accuracy),
        ),
        scaled,
    )
    &&& r == spell_view(caster, target, spell_name, crit_roll, scaled)
}

/// Spell damage before variance is the caster's magic attack plus the
/// spell's power (at most `MAX_SPELL_DAMAGE`) minus half the target's magic
/// defense (counted up to 180), at least 1; so, away from that floor, each
/// point of magic attack or power adds one point of damage. (A total past
/// `u32::MAX` wraps, as the 32-bit conversion does.)
pub proof fn lemma_spell_raw_damage_rules(magic_attack: u32, power: u32, magic_defense: u32)
    ensures
        ({
            let p = if power <= MAX_SPELL_DAMAGE { power as int } else { MAX_SPELL_DAMAGE as int };
            let half = (if magic_defense <= 180 { magic_defense as int } else { 180 }) / 2;
            let v = magic_attack + p - half;
            let r = spell_raw_damage(magic_attack, power, magic_defense);
            &&& 1 <= v <= u32::MAX ==> r == v
            &&& v < 1 ==> r == 1
            &&& (1 <= v && magic_attack < u32::MAX && v < u32::MAX) ==> spell_raw_damage(
                (magic_attack + 1) as u32,
                power,
                magic_defense,
            ) == r + 1
            &&& (1 <= v && power < MAX_SPELL_DAMAGE && v < u32::MAX) ==> spell_raw_damage(
                magic_attack,
                (power + 1) as u32,
                magic_defense,
            ) == r + 1
        }),
{
    assert(forall|x: int| 0 <= x < 0x1_0000_0000 ==> #[trigger] (x % 0x1_0000_0000) == x) by {
        assert forall|x: int| 0 <= x < 0x1_0000_0000 implies #[trigger] (x % 0x1_0000_0000) == x by {
            vstd::arithmetic::div_mod::lemma_small_mod(x as nat, 0x1_0000_0000nat);
        }
    }
}

/// A damage spell deals the scaled damage, at least 1; it is critical
/// exactly when the critical roll is below a fifth of the caster's accuracy
/// (at most 100); the line names caster, spell, target and damage.
pub proof fn lemma_spell_hit_rules(
    caster: SpellCombatant,
    target: SpellCombatant,
    spell_name: Seq<char>,
    crit_roll: u32,
    scaled: u32,
)
    ensures
        ({
            let r = spell_view(caster, target, spell_name, crit_roll, scaled);
            let a = caster.stats.accuracy as int;
            &&& r.0 as int == if scaled == 0 { 1 } else { scaled as int }
            &&& r.1 <==> (crit_roll < 100 && 5 * crit_roll + 5 <= a)
            &&& r.2 == caster.name@ + " casts "@ + spell_name + " on "@ + target.name@ + " for "@
                + decimal(r.0 as nat) + " damage"@ + (if r.1 { " (CRITICAL)"@ } else { ""@ }) + "."@
        }),
{
    let a = caster.stats.accuracy;
    assert(crit_roll < crit_chance(a) <==> (crit_roll < 100 && 5 * crit_roll + 5 <= a)) by (nonlinear_arith)
        requires
            crit_chance(a) == if a / 5 <= 100 { (a / 5) as int } else { 100 },
    ;
}

/// Damage before variance (see `spell_raw_damage`).
pub fn compute_spell_raw_damage(magic_attack: u32, power: u32, magic_defense: u32) -> (r: u32)
    ensures
        r == spell_raw_damage(magic_attack, power, magic_defense),
{
    let p: u64 = if power <= MAX_SPELL_DAMAGE { power as u64 } else { MAX_SPELL_DAMAGE as u64 };
    let d: u64 = if magic_defense <= 180 { magic_defense as u64 } else { 180 };
    let sum: u64 = magic_attack as u64 + p;
    let half: u64 = d / 2;
    let r1: u64 = if sum > half && sum - half >= 1 { sum - half } else { 1 };
    (r1 % 0x1_0000_0000) as u32
}

/// The outcome of a damage spell whose draws are already made: `crit_roll`
/// against the critical chance, and `scaled`, the damage after variance and
/// critical scaling.
pub fn resolve_spell_hit(
    caster: &SpellCombatant,
    target: &SpellCombatant,
    spell_name: &String,
    crit_roll: u32,
    scaled: u32,
) -> (r: SpellDamageResult)
    ensures
        r@ == spell_view(*caster, *target, spell_name@, crit_roll, scaled),
{
    let cc = if caster.stats.accuracy / 5 <= 100 { caster.stats.accuracy / 5 } else { 100 };
    let critical = crit_roll < cc;
    let damage = if scaled >= 1 { scaled } else { 1 };
    let mut msg = caster.name.clone();
    msg.append(" casts ");
    msg.append(spell_name.as_str());
    msg.append(" on ");
    msg.append(target.name.as_str());
    msg.append(" for ");
    push_decimal(&mut msg, damage as u64);
    msg.append(" damage");
    if critical {
        msg.append(" (CRITICAL)");
    } else {
        msg.append("");
    }
    msg.append(".");
    SpellDamageResult { damage, critical, message: msg }
}

/// Damage of `spell` cast by `caster` on `target`.
///
/// A spell whose effect is not `Damage` deals nothing. A damage spell draws
/// the variance (70 to 100 percent) and then a critical roll below 100;
/// `scale(raw, variance, critical)` gives the damage after variance and, on
/// a critical, the factor 1.5. The damage is at least 1.
pub fn spell_damage_calc(
    caster: &SpellCombatant,
    target: &SpellCombatant,
    spell: &SpellAsset,
    rng: &mut SmallRng,
    scale: impl Fn(u32, u32, bool) -> u32,
) -> (r: SpellDamageResult)
    requires
        forall|raw: u32, v: u32, c: bool| call_requires(scale, (raw, v, c)),
    ensures
        !(spell.effect is Damage) ==> r@ == (0u32, false, non_damage_spell_message(
            caster.name@,
            spell.display_name@,
        )),
        !(spell.effect is Damage) ==> *final(rng) == *old(rng),
        spell.effect matches SpellEffect::Damage { power } ==> exists|
            variance: u32,
            crit_roll: u32,
            scaled: u32,
        |
            #[trigger] spell_outcome(
                *caster,
                *target,
                spell.display_name@,
                power,
                scale,
                r@,
                variance,
                crit_roll,
                scaled,
            ),
{
    let power = match &spell.effect {
        SpellEffect::Damage { power } => *power,
        _ => {
            let mut msg = caster.name.clone();
            msg.append(" uses ");
            msg.append(spell.display_name.as_str());
            msg.append(" (non-damage effect).");
            return SpellDamageResult { damage: 0, critical: false, message: msg };
        },
    };
    let raw = compute_spell_raw_damage(caster.stats.magic_attack, power, target.stats.magic_defense);
    let variance = random_inclusive(rng, 70, 100);
    let crit_roll = random_below(rng, 100);
    let cc = if caster.stats.accuracy / 5 <= 100 { caster.stats.accuracy / 5 } else { 100 };
    let critical = crit_roll < cc;
    let scaled = scale(raw, variance, critical);
    let r = resolve_spell_hit(caster, target, &spell.display_name, crit_roll, scaled);
    assert(spell_outcome(
        *caster,
        *target,
        spell.display_name@,
        power,
        scale,
        r@,
        variance,
        crit_roll,
        scaled,
    ));
    r
}

/// `derived` has at least the spell's MP cost (capped at
/// `MAX_SPELL_MP_COST`).
pub open spec fn has_mp_for(derived: DerivedStats, mp_cost: u32) -> bool {
    derived.current_mp >= if mp_cost <= MAX_SPELL_MP_COST { mp_cost } else { MAX_SPELL_MP_COST }
}

/// Whether `derived` has enough MP to cast `spell`.
pub fn check_mp(derived: &DerivedStats, spell: &SpellAsset) -> (r: bool)
    ensures
        r == has_mp_for(*derived, spell.mp_cost),
{
    let cost = if spell.mp_cost <= MAX_SPELL_MP_COST { spell.mp_cost } else { MAX_SPELL_MP_COST };
    derived.current_mp >= cost
}

/// MP left after paying `mp_cost` (capped at `MAX_SPELL_MP_COST`) from
/// `mp`, stopping at zero.
pub open spec fn mp_after(mp: u32, mp_cost: u32) -> u32 {
    let cost = if mp_cost <= MAX_SPELL_MP_COST { mp_cost } else { MAX_SPELL_MP_COST };
    if mp >= cost { (mp - cost) as u32 } else { 0u32 }
}

/// A spell the caster has MP for costs exactly its cost (capped at
/// `MAX_SPELL_MP_COST`), so paying and the cost add back up to the MP held;
/// without enough MP, paying leaves none. Paying never adds MP.
pub proof fn lemma_mp_rules(d: DerivedStats, mp_cost: u32)
    ensures
        has_mp_for(d, mp_cost) ==> mp_after(d.current_mp, mp_cost) + (if mp_cost
            <= MAX_SPELL_MP_COST { mp_cost as int } else { MAX_SPELL_MP_COST as int })
            == d.current_mp,
        !has_mp_for(d, mp_cost) ==> mp_after(d.current_mp, mp_cost) == 0,
        mp_after(d.current_mp, mp_cost) <= d.current_mp,
        has_mp_for(d, mp_cost) <==> d.current_mp >= mp_cost || d.current_mp >= MAX_SPELL_MP_COST,
{
}

/// Charges the spell's MP cost (capped at `MAX_SPELL_MP_COST`), stopping at
/// zero. Nothing else changes.
pub fn deduct_mp(derived: &mut DerivedStats, spell: &SpellAsset)
    ensures
        final(derived).current_mp == mp_after(old(derived).current_mp, spell.mp_cost),
        *final(derived) == (DerivedStats { current_mp: final(derived).current_mp, ..*old(derived) }),
{
    let cost = if spell.mp_cost <= MAX_SPELL_MP_COST { spell.mp_cost } else { MAX_SPELL_MP_COST };
    derived.current_mp = derived.current_mp.saturating_sub(cost);
}

} // verus!
