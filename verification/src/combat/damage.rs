//! Physical damage for one `Attack`: the hit roll, the row rule, the
//! multiplicative formula `attack * (100 - defense / 2) / 100` with a
//! variance of 70 to 100 percent, and the critical-hit roll.
//!
//! The variance and the critical multiplier (1.5) are applied in single
//! precision by the caller's `scale` function; everything else is here.

use crate::character::{DerivedStats, PartyRow, StatusEffects};
use crate::combat::actions::CombatActionKind;
use crate::data::items::ItemAsset;
use crate::rng::{random_below, random_inclusive};
use crate::text::{decimal, push_decimal};
use rand::rngs::SmallRng;
use vstd::prelude::*;
use vstd::string::*;

verus! {

/// What the damage rules read of one side of an attack.
#[derive(Clone, Debug)]
pub struct Combatant {
    pub name: String,
    pub stats: DerivedStats,
    pub row: PartyRow,
    pub status: StatusEffects,
}

/// The outcome of one damage calculation.
#[derive(Clone, Debug)]
pub struct DamageResult {
    pub damage: u32,
    pub hit: bool,
    pub critical: bool,
    pub message: String,
}

impl View for DamageResult {
    type V = (u32, bool, bool, Seq<char>);

    open spec fn view(&self) -> (u32, bool, bool, Seq<char>) {
        (self.damage, self.hit, self.critical, self.message@)
    }
}

/// Chance to hit, in percent: accuracy minus evasion, at least 0, at most 100.
pub open spec fn hit_chance(accuracy: u32, evasion: u32) -> int {
    let d = if accuracy >= evasion { accuracy - evasion } else { 0 };
    if d <= 100 { d } else { 100 }
}

/// Damage before variance: `attack * (100 - min(defense, 180) / 2) / 100`,
/// at least 1.
pub open spec fn raw_damage(attack: u32, defense: u32) -> int {
    let d = if defense <= 180 { defense as int } else { 180 };
    let r = (attack * (100 - d / 2)) / 100;
    if r >= 1 { r } else { 1 }
}

/// Chance of a critical hit, in percent: accuracy / 5, at most 100.
pub open spec fn crit_chance(accuracy: u32) -> int {
    if accuracy / 5 <= 100 { (accuracy / 5) as int } else { 100 }
}

/// A front-row attacker with a weapon cannot reach a back-row defender.
pub open spec fn out_of_reach(attacker_row: PartyRow, defender_row: PartyRow, has_weapon: bool) -> bool {
    attacker_row == PartyRow::Front && defender_row == PartyRow::Back && has_weapon
}

pub open spec fn non_damaging_message(a: Seq<char>) -> Seq<char> {
    a + " performs a non-damaging action."@
}

pub open spec fn miss_message(a: Seq<char>, d: Seq<char>) -> Seq<char> {
    a + " misses "@ + d + "."@
}

pub open spec fn cant_reach_message(a: Seq<char>, d: Seq<char>) -> Seq<char> {
    a + "'s attack can't reach "@ + d + " in the back row."@
}

pub open spec fn hit_message(a: Seq<char>, d: Seq<char>, damage: nat, critical: bool) -> Seq<char> {
    a + (if critical { " critically strikes "@ } else { " attacks "@ }) + d + " for "@ + decimal(
        damage,
    ) + " damage"@ + (if critical { " (CRITICAL)"@ } else { ""@ }) + "."@
}

/// The outcome of an attack, given the hit roll and the critical roll (each
/// a draw below 100) and the damage after variance and critical scaling.
pub open spec fn attack_view(
    attacker: Combatant,
    defender: Combatant,
    has_weapon: bool,
    hit_roll: u32,
    crit_roll: u32,
    scaled: u32,
) -> (u32, bool, bool, Seq<char>) {
    if hit_roll >= hit_chance(attacker.stats.accuracy, defender.stats.evasion) {
        (0, false, false, miss_message(attacker.name@, defender.name@))
    } else if out_of_reach(attacker.row, defender.row, has_weapon) {
        (0, true, false, cant_reach_message(attacker.name@, defender.name@))
    } else {
        let critical = crit_roll < crit_chance(attacker.stats.accuracy);
        let damage: u32 = if scaled >= 1 { scaled } else { 1 };
        (damage, true, critical, hit_message(attacker.name@, defender.name@, damage as nat, critical))
    }
}

/// The attack reaches the damage formula (it hits and is in reach).
pub open spec fn attack_lands(
    attacker: Combatant,
    defender: Combatant,
    has_weapon: bool,
    hit_roll: u32,
) -> bool {
    hit_roll < hit_chance(attacker.stats.accuracy, defender.stats.evasion) && !out_of_reach(
        attacker.row,
        defender.row,
        has_weapon,
    )
}

/// `scale` may return `scaled` for this attack's raw damage, the variance
/// and whether `crit_roll` makes it a critical.
pub open spec fn scale_gives<F: Fn(u32, u32, bool) -> u32>(
    scale: F,
    attacker: Combatant,
    defender: Combatant,
    variance: u32,
    crit_roll: u32,
    scaled: u32,
) -> bool {
    call_ensures(
        scale,
        (
            raw_damage(attacker.stats.attack, defender.stats.defense) as u32,
            variance,
            crit_roll < crit_chance(attacker.stats.accuracy),
        ),
        scaled,
    )
}

/// `r` is the outcome of the attack for these draws (each below 100, the
/// variance from 70 to 100) and a result `scaled` of `scale` when the attack
/// lands.
pub open spec fn attack_outcome<F: Fn(u32, u32, bool) -> u32>(
    attacker: Combatant,
    defender: Combatant,
    has_weapon: bool,
    scale: F,
    r: (u32, bool, bool, Seq<char>),
    hit_roll: u32,
    variance: u32,
    crit_roll: u32,
    scaled: u32,
) -> bool {
    &&& hit_roll < 100 && 70 <= variance <= 100 && crit_roll < 100
    &&& attack_lands(attacker, defender, has_weapon, hit_roll) ==> scale_gives(
        scale,
        attacker,
        defender,
        variance,
        crit_roll,
        scaled,
    )
    &&& r == attack_view(attacker, defender, has_weapon, hit_roll, crit_roll, scaled)
}

/// How an attack with given draws turns out. It hits exactly when the hit
/// roll is below accuracy minus evasion (none when evasion is at least the
/// accuracy, at most 100); a miss deals nothing. A hit on a back-row
/// defender by a front-row attacker with a weapon deals nothing; any other
/// hit deals the scaled damage, at least 1, and is critical exactly when the
/// critical roll is below a fifth of the accuracy (at most 100).
pub proof fn lemma_attack_rules(
    attacker: Combatant,
    defender: Combatant,
    has_weapon: bool,
    hit_roll: u32,
    crit_roll: u32,
    scaled: u32,
)
    ensures
        ({
            let a = attacker.stats.accuracy as int;
            let e = defender.stats.evasion as int;
            let r = attack_view(attacker, defender, has_weapon, hit_roll, crit_roll, scaled);
            let lands_roll = if a >= e { hit_roll < a - e && hit_roll < 100 } else { false };
            &&& r.1 <==> lands_roll
            &&& !lands_roll ==> r == (
                0u32,
                false,
                false,
                attacker.name@ + " misses "@ + defender.name@ + "."@,
            )
            &&& (lands_roll && attacker.row == PartyRow::Front && defender.row == PartyRow::Back
                && has_weapon) ==> r.0 == 0 && !r.2
            &&& (lands_roll && !(attacker.row == PartyRow::Front && defender.row == PartyRow::Back
                && has_weapon)) ==> {
                &&& r.0 as int == if scaled == 0 { 1 } else { scaled as int }
                &&& r.2 <==> (crit_roll < 100 && 5 * crit_roll + 5 <= a)
            }
        }),
{
    let a = attacker.stats.accuracy;
    assert(crit_roll < crit_chance(a) <==> (crit_roll < 100 && 5 * crit_roll + 5 <= a)) by (nonlinear_arith)
        requires
            crit_chance(a) == if a / 5 <= 100 { (a / 5) as int } else { 100 },
    ;
}

/// An attack that misses against some evasion also misses against any
/// higher evasion, and one that hits also hits with more accuracy.
pub proof fn lemma_hit_monotone(acc: u32, acc2: u32, eva: u32, eva2: u32, hit_roll: u32)
    requires
        acc <= acc2,
        eva2 <= eva,
    ensures
        hit_roll < hit_chance(acc, eva) ==> hit_roll < hit_chance(acc2, eva2),
{
}

/// Damage before variance is the largest whole number `r` with
/// `100 * r <= attack * (100 - min(defense, 180) / 2)`, but at least 1: the
/// full attack against no defense, a tenth of it against 180 or more.
pub proof fn lemma_raw_damage_rules(attack: u32, defense: u32)
    ensures
        ({
            let f = 100 - (if defense <= 180 { defense as int } else { 180 }) / 2;
            let r = raw_damage(attack, defense);
            &&& r >= 1
            &&& attack * f >= 100 ==> 100 * r <= attack * f < 100 * (r + 1)
            &&& attack * f < 100 ==> r == 1
        }),
        defense == 0 ==> raw_damage(attack, defense) == if attack == 0 { 1 } else { attack as int },
{
    let d = if defense <= 180 { defense as int } else { 180 };
    let f = 100 - d / 2;
    let q = (attack * f) / 100;
    assert(10 <= f <= 100);
    assert(attack * f >= 0) by (nonlinear_arith)
        requires
            f >= 0,
            attack >= 0,
    ;
    assert(100 * q <= attack * f < 100 * (q + 1)) by (nonlinear_arith)
        requires
            q == (attack * f) / 100,
            attack * f >= 0,
    ;
    if defense == 0 {
        assert(f == 100);
        assert(q == attack) by (nonlinear_arith)
            requires
                q == (attack * 100) / 100,
        ;
    }
}

fn compute_hit_chance(accuracy: u32, evasion: u32) -> (r: u32)
    ensures
        r == hit_chance(accuracy, evasion),
{
    let d = accuracy.saturating_sub(evasion);
    if d <= 100 { d } else { 100 }
}

/// Damage before variance (see `raw_damage`).
pub fn compute_raw_damage(attack: u32, defense: u32) -> (r: u32)
    ensures
        r == raw_damage(attack, defense),
{
    let d: u64 = if defense <= 180 { defense as u64 } else { 180 };
    let factor: u64 = 100 - d / 2;
    assert(attack * factor <= 100 * 0xffff_ffffu64) by (nonlinear_arith)
        requires
            factor <= 100,
            attack <= 0xffff_ffffu64,
    ;
    let prod: u64 = attack as u64 * factor;
    let r: u64 = prod / 100;
    assert(r <= attack) by (nonlinear_arith)
        requires
            r == prod / 100,
            prod == attack * factor,
            factor <= 100,
    ;
    if r >= 1 { r as u32 } else { 1 }
}

fn compute_crit_chance(accuracy: u32) -> (r: u32)
    ensures
        r == crit_chance(accuracy),
{
    let c = accuracy / 5;
    if c <= 100 { c } else { 100 }
}

/// The outcome of an attack whose draws are already made: `hit_roll` and
/// `crit_roll` against the hit and critical chances, and `scaled`, the damage
/// after variance and critical scaling (used only when the attack lands).
pub fn resolve_attack(
    attacker: &Combatant,
    defender: &Combatant,
    has_weapon: bool,
    hit_roll: u32,
    crit_roll: u32,
    scaled: u32,
) -> (r: DamageResult)
    ensures
        r@ == attack_view(*attacker, *defender, has_weapon, hit_roll, crit_roll, scaled),
{
    let mut msg = attacker.name.clone();
    if hit_roll >= compute_hit_chance(attacker.stats.accuracy, defender.stats.evasion) {
        proof {
            reveal_strlit(" misses ");
            reveal_strlit(".");
        }
        msg.append(" misses ");
        msg.append(defender.name.as_str());
        msg.append(".");
        return DamageResult { damage: 0, hit: false, critical: false, message: msg };
    }
    if attacker.row == PartyRow::Front && defender.row == PartyRow::Back && has_weapon {
        msg.append("'s attack can't reach ");
        msg.append(defender.name.as_str());
        msg.append(" in the back row.");
        return DamageResult { damage: 0, hit: true, critical: false, message: msg };
    }
    let critical = crit_roll < compute_crit_chance(attacker.stats.accuracy);
    let damage = if scaled >= 1 { scaled } else { 1 };
    if critical {
        msg.append(" critically strikes ");
    } else {
        msg.append(" attacks ");
    }
    msg.append(defender.name.as_str());
    msg.append(" for ");
    push_decimal(&mut msg, damage as u64);
    msg.append(" damage");
    if critical {
        msg.append(" (CRITICAL)");
    } else {
        msg.append("");
    }
    msg.append(".");
    DamageResult { damage, hit: true, critical, message: msg }
}

/// Damage for one action of `attacker` against `defender`.
///
/// Any action but `Attack` deals nothing and draws nothing. An attack draws a hit roll below
/// 100; on a hit in reach it draws the variance (70 to 100 percent) and a
/// critical roll below 100, and `scale(raw, variance, critical)` gives the
/// damage after variance and, on a critical, the factor 1.5. The damage of a
/// landed attack is at least 1.
pub fn damage_calc(
    attacker: &Combatant,
    defender: &Combatant,
    weapon: Option<&ItemAsset>,
    action: &CombatActionKind,
    rng: &mut SmallRng,
    scale: impl Fn(u32, u32, bool) -> u32,
) -> (r: DamageResult)
    requires
        forall|raw: u32, v: u32, c: bool| call_requires(scale, (raw, v, c)),
    ensures
        !(action is Attack) ==> r@ == (0u32, false, false, non_damaging_message(attacker.name@)),
        !(action is Attack) ==> *final(rng) == *old(rng),
        action is Attack ==> exists|hit_roll: u32, variance: u32, crit_roll: u32, scaled: u32|
            #[trigger] attack_outcome(
                *attacker,
                *defender,
                weapon is Some,
                scale,
                r@,
                hit_roll,
                variance,
                crit_roll,
                scaled,
            ),
{
    match action {
        CombatActionKind::Attack => {},
        _ => {
            let mut msg = attacker.name.clone();
            msg.append(" performs a non-damaging action.");
            return DamageResult { damage: 0, hit: false, critical: false, message: msg };
        },
    }
    let has_weapon = weapon.is_some();
    let hit_roll = random_below(rng, 100);
    let hit = hit_roll < compute_hit_chance(attacker.stats.accuracy, defender.stats.evasion);
    if !hit || (attacker.row == PartyRow::Front && defender.row == PartyRow::Back && has_weapon) {
        let r = resolve_attack(attacker, defender, has_weapon, hit_roll, 0, 0);
        assert(r@ == attack_view(*attacker, *defender, has_weapon, hit_roll, 0, 0));
        assert(attack_outcome(*attacker, *defender, has_weapon, scale, r@, hit_roll, 70, 0, 0));
        return r;
    }
    let raw = compute_raw_damage(attacker.stats.attack, defender.stats.defense);
    let variance = random_inclusive(rng, 70, 100);
    let crit_roll = random_below(rng, 100);
    let critical = crit_roll < compute_crit_chance(attacker.stats.accuracy);
    let scaled = scale(raw, variance, critical);
    let r = resolve_attack(attacker, defender, has_weapon, hit_roll, crit_roll, scaled);
    assert(r@ == attack_view(*attacker, *defender, has_weapon, hit_roll, crit_roll, scaled));
    assert(scale_gives(scale, *attacker, *defender, variance, crit_roll, scaled));
    assert(attack_outcome(
        *attacker,
        *defender,
        has_weapon,
        scale,
        r@,
        hit_roll,
        variance,
        crit_roll,
        scaled,
    ));
    r
}

} // verus!
