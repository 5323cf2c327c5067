//! Status-effect rules: how an effect is applied on top of the ones present,
//! how durations tick down, what poison and regeneration do on a tick, and
//! the incapacitation predicates the turn order consults.

use crate::character::{
    first_of, holds, is_permanent, is_stat_affecting, is_stat_modifier, lemma_first_of, permanent,
    stat_modifier, ActiveEffect, DerivedStats, EntityId, StatusEffectType, StatusEffects,
};
use vstd::prelude::*;

verus! {

/// Potency 1.0, as the bit pattern held in `ActiveEffect::magnitude`.
pub const POTENCY_ONE: u32 = 0x3F80_0000;

/// Potency 0.5, as the bit pattern held in `ActiveEffect::magnitude`.
pub const POTENCY_HALF: u32 = 0x3F00_0000;

/// Potency 10.0, the highest an effect is given.
pub const POTENCY_MAX: u32 = 0x4120_0000;

/// Request to apply (or refresh) an effect on a character. `potency` is the
/// bit pattern of a single-precision number, as requested.
#[derive(Clone, Copy, Debug, PartialEq, Eq, Structural)]
pub struct ApplyStatusEvent {
    pub target: EntityId,
    pub effect: StatusEffectType,
    pub potency: u32,
    pub duration: Option<u32>,
}

/// One tick of status durations for a character.
#[derive(Clone, Copy, Debug, PartialEq, Eq, Structural)]
pub struct StatusTickEvent {
    pub target: EntityId,
}

/// A requested potency made safe: not finite, or below zero, counts as 0;
/// above 10 counts as 10 (on bit patterns: a clear sign bit and an exponent
/// below all ones marks a finite non-negative number, and such numbers are
/// ordered as their patterns are). Negative zero becomes zero.
pub open spec fn clamped_potency(bits: u32) -> u32 {
    if bits >= 0x8000_0000 || bits >= 0x7F80_0000 {
        0
    } else if bits > POTENCY_MAX {
        POTENCY_MAX
    } else {
        bits
    }
}

/// The requested potency made safe (see `clamped_potency`).
pub fn clamp_potency(bits: u32) -> (r: u32)
    ensures
        r == clamped_potency(bits),
{
    if bits >= 0x8000_0000 || bits >= 0x7F80_0000 {
        0
    } else if bits > POTENCY_MAX {
        POTENCY_MAX
    } else {
        bits
    }
}

/// A safe potency lies between 0 and 10 and stays as it is when made safe
/// again.
pub proof fn lemma_clamped_potency_in_range(bits: u32)
    ensures
        clamped_potency(bits) <= POTENCY_MAX,
        clamped_potency(clamped_potency(bits)) == clamped_potency(bits),
{
}

/// The larger of two potencies.
pub open spec fn max_potency(a: u32, b: u32) -> u32 {
    if a >= b { a } else { b }
}

/// Applying `effect` to the effects `s` changes nothing: it is permanent and
/// already present.
pub open spec fn apply_is_noop(s: Seq<ActiveEffect>, effect: StatusEffectType) -> bool {
    is_permanent(effect) && holds(s, effect)
}

/// The effects after applying `effect` with `potency` and `duration`:
/// a permanent effect already present is left alone; an effect already
/// present has its duration replaced and keeps the higher potency; otherwise
/// the effect is appended.
pub open spec fn applied(
    s: Seq<ActiveEffect>,
    effect: StatusEffectType,
    potency: u32,
    duration: Option<u32>,
) -> Seq<ActiveEffect> {
    if apply_is_noop(s, effect) {
        s
    } else if holds(s, effect) {
        let i = first_of(s, effect);
        s.update(
            i,
            ActiveEffect {
                effect_type: effect,
                remaining_turns: duration,
                magnitude: max_potency(s[i].magnitude, potency),
            },
        )
    } else {
        s.push(ActiveEffect { effect_type: effect, remaining_turns: duration, magnitude: potency })
    }
}

/// Applies one `ApplyStatusEvent` to the target's effects, its potency made
/// safe first (see `clamped_potency`). This is the only way effects are added
/// or refreshed in combat.
///
/// Returns `true` when the derived stats must be recomputed: the effect was
/// not a no-op and is AttackUp, DefenseUp, SpeedUp or Dead.
pub fn apply_status_handler(status: &mut StatusEffects, ev: &ApplyStatusEvent) -> (rederive: bool)
    ensures
        final(status).effects@ == applied(
            old(status).effects@,
            ev.effect,
            clamped_potency(ev.potency),
            ev.duration,
        ),
        rederive == (!apply_is_noop(old(status).effects@, ev.effect) && is_stat_affecting(ev.effect)),
{
    proof {
        lemma_first_of(status.effects@, ev.effect);
    }
    let potency = clamp_potency(ev.potency);
    if permanent(ev.effect) && status.has(ev.effect) {
        return false;
    }
    match status.position(ev.effect) {
        Some(i) => {
            let old_mag = status.effects[i].magnitude;
            let mag = if old_mag >= potency { old_mag } else { potency };
            status.effects.set(
                i,
                ActiveEffect { effect_type: ev.effect, remaining_turns: ev.duration, magnitude: mag },
            );
        },
        None => {
            status.effects.push(
                ActiveEffect {
                    effect_type: ev.effect,
                    remaining_turns: ev.duration,
                    magnitude: potency,
                },
            );
        },
    }
    stat_modifier(ev.effect) || ev.effect == StatusEffectType::Dead
}

/// One effect after a tick: permanent effects stay; a remaining count of 0
/// or 1 expires; any other count drops by one.
pub open spec fn ticked(e: ActiveEffect) -> Option<ActiveEffect> {
    match e.remaining_turns {
        None => Some(e),
        Some(n) => if n <= 1 {
            None
        } else {
            Some(ActiveEffect { remaining_turns: Some((n - 1) as u32), ..e })
        },
    }
}

/// The effects after a tick, in their order.
pub open spec fn ticked_all(s: Seq<ActiveEffect>) -> Seq<ActiveEffect>
    decreases s.len(),
{
    if s.len() == 0 {
        Seq::empty()
    } else {
        match ticked(s.last()) {
            Some(e) => ticked_all(s.drop_last()).push(e),
            None => ticked_all(s.drop_last()),
        }
    }
}

/// The effect expires on this tick and is a stat modifier.
pub open spec fn expiring_modifier(e: ActiveEffect) -> bool {
    is_stat_modifier(e.effect_type) && ticked(e) is None
}

/// After applying an effect the target has it; effects of other types are
/// untouched, in place. An effect not yet present is added at the end with
/// the given potency and duration; one already present (not permanent)
/// keeps its place and takes the new duration; nothing is ever removed.
pub proof fn lemma_apply_rules(
    s: Seq<ActiveEffect>,
    effect: StatusEffectType,
    potency: u32,
    duration: Option<u32>,
)
    ensures
        ({
            let r = applied(s, effect, potency, duration);
            &&& holds(r, effect)
            &&& r.len() == if holds(s, effect) { s.len() } else { s.len() + 1 }
            &&& forall|i: int|
                0 <= i < s.len() && (#[trigger] s[i]).effect_type != effect ==> r[i] == s[i]
            &&& !holds(s, effect) ==> r[s.len() as int] == (ActiveEffect {
                effect_type: effect,
                remaining_turns: duration,
                magnitude: potency,
            })
            &&& (holds(s, effect) && !is_permanent(effect)) ==> exists|i: int|
                0 <= i < s.len() && (#[trigger] s[i]).effect_type == effect && r[i].effect_type
                    == effect && r[i].remaining_turns == duration && r[i].magnitude >= potency
                    && r[i].magnitude >= s[i].magnitude && (r[i].magnitude == potency
                    || r[i].magnitude == s[i].magnitude)
        }),
{
    lemma_first_of(s, effect);
    let r = applied(s, effect, potency, duration);
    if !holds(s, effect) {
        assert(r[s.len() as int].effect_type == effect);
    } else {
        let i = first_of(s, effect);
        assert(r[i].effect_type == effect);
        if !is_permanent(effect) {
            assert(s[i].effect_type == effect);
        }
    }
}

/// A tick leaves a permanent effect as it is, removes a timed effect on its
/// last turn (or with none left), and otherwise takes one turn off it: an
/// effect with `n` turns left has `n - 1` after the tick, all else equal.
pub proof fn lemma_tick_rules(e: ActiveEffect)
    ensures
        e.remaining_turns is None ==> ticked(e) == Some(e),
        e.remaining_turns matches Some(n) ==> (ticked(e) is None <==> n <= 1),
        e.remaining_turns matches Some(n) ==> (n > 1 ==> ticked(e) == Some(
            ActiveEffect { effect_type: e.effect_type, magnitude: e.magnitude, remaining_turns: Some((n - 1) as u32) },
        )),
{
}

/// The base of a poison or regeneration tick is the whole number of
/// twentieths of maximum HP, at least 1.
pub proof fn lemma_tick_base_rules(max_hp: u32)
    ensures
        tick_base(max_hp) >= 1,
        max_hp >= 20 ==> 20 * tick_base(max_hp) <= max_hp < 20 * (tick_base(max_hp) + 1),
        max_hp < 20 ==> tick_base(max_hp) == 1,
{
}

/// Decrements every timed effect and removes the expired ones.
///
/// Returns `true` when an AttackUp, DefenseUp or SpeedUp expired, so the
/// derived stats must be recomputed.
pub fn tick_status_durations(status: &mut StatusEffects) -> (modifier_removed: bool)
    ensures
        final(status).effects@ == ticked_all(old(status).effects@),
        modifier_removed == exists|i: int|
            0 <= i < old(status).effects@.len() && expiring_modifier(
                #[trigger] old(status).effects@[i],
            ),
{
    let ghost s = status.effects@;
    let mut kept: Vec<ActiveEffect> = Vec::new();
    let mut removed = false;
    let mut i: usize = 0;
    while i < status.effects.len()
        invariant
            status.effects@ == s,
            0 <= i <= s.len(),
            kept@ == ticked_all(s.take(i as int)),
            removed == exists|j: int| 0 <= j < i && expiring_modifier(#[trigger] s[j]),
        decreases s.len() - i,
    {
        let e = status.effects[i];
        assert(s.take(i + 1).drop_last() == s.take(i as int));
        assert(s.take(i + 1).last() == e);
        match e.remaining_turns {
            None => {
                kept.push(e);
            },
            Some(n) => {
                if n <= 1 {
                    if stat_modifier(e.effect_type) {
                        removed = true;
                    }
                } else {
                    kept.push(ActiveEffect { remaining_turns: Some(n - 1), ..e });
                }
            },
        }
        i = i + 1;
    }
    assert(s.take(s.len() as int) == s);
    status.effects = kept;
    removed
}

/// The base of a poison or regeneration tick: a twentieth of maximum HP,
/// at least 1.
pub open spec fn tick_base(max_hp: u32) -> u32 {
    if max_hp / 20 >= 1 { (max_hp / 20) as u32 } else { 1 }
}

/// A twentieth of `derived.max_hp`, at least 1. A poison or regeneration
/// tick is this base scaled by the effect's potency.
pub fn poison_tick_base(derived: &DerivedStats) -> (r: u32)
    ensures
        r == tick_base(derived.max_hp),
{
    let b = derived.max_hp / 20;
    if b >= 1 { b } else { 1 }
}

/// On a tick, a poisoned character loses `scaled` HP (at least 1), never
/// below zero. `scaled` is the tick base scaled by the poison's potency.
/// Without Poison nothing changes.
pub fn apply_poison_damage(status: &StatusEffects, derived: &mut DerivedStats, scaled: u32)
    ensures
        holds(status.effects@, StatusEffectType::Poison) ==> *final(derived) == (DerivedStats {
            current_hp: (if old(derived).current_hp >= (if scaled >= 1 { scaled } else { 1 }) {
                old(derived).current_hp - (if scaled >= 1 { scaled } else { 1 })
            } else {
                0
            }) as u32,
            ..*old(derived)
        }),
        !holds(status.effects@, StatusEffectType::Poison) ==> *final(derived) == *old(derived),
{
    if status.has(StatusEffectType::Poison) {
        let damage = if scaled >= 1 { scaled } else { 1 };
        derived.current_hp = derived.current_hp.saturating_sub(damage);
    }
}

/// On a tick, a regenerating character heals `scaled` HP (at least 1), not
/// above maximum HP. Without Regen nothing changes.
pub fn apply_regen(status: &StatusEffects, derived: &mut DerivedStats, scaled: u32)
    ensures
        holds(status.effects@, StatusEffectType::Regen) ==> *final(derived) == (DerivedStats {
            current_hp: if old(derived).current_hp + (if scaled >= 1 { scaled } else { 1 })
                >= old(derived).max_hp {
                old(derived).max_hp
            } else {
                (old(derived).current_hp + (if scaled >= 1 { scaled } else { 1 })) as u32
            },
            ..*old(derived)
        }),
        !holds(status.effects@, StatusEffectType::Regen) ==> *final(derived) == *old(derived),
{
    if status.has(StatusEffectType::Regen) {
        let heal = if scaled >= 1 { scaled } else { 1 };
        let raised = derived.current_hp.saturating_add(heal);
        derived.current_hp = if raised < derived.max_hp { raised } else { derived.max_hp };
    }
}

/// `true` while Paralysis is active.
pub fn is_paralyzed(status: &StatusEffects) -> (r: bool)
    ensures
        r == holds(status.effects@, StatusEffectType::Paralysis),
{
    status.has(StatusEffectType::Paralysis)
}

/// `true` while Sleep is active.
pub fn is_asleep(status: &StatusEffects) -> (r: bool)
    ensures
        r == holds(status.effects@, StatusEffectType::Sleep),
{
    status.has(StatusEffectType::Sleep)
}

/// `true` while Silence is active.
pub fn is_silenced(status: &StatusEffects) -> (r: bool)
    ensures
        r == holds(status.effects@, StatusEffectType::Silence),
{
    status.has(StatusEffectType::Silence)
}

/// After damage: a character at 0 HP is to receive the permanent Dead
/// effect (potency 1.0); otherwise nothing is requested.
pub fn check_dead_and_apply(target: EntityId, derived: &DerivedStats) -> (r: Option<
    ApplyStatusEvent,
>)
    ensures
        derived.current_hp == 0 ==> r == Some(
            ApplyStatusEvent {
                target,
                effect: StatusEffectType::Dead,
                potency: POTENCY_ONE,
                duration: None,
            },
        ),
        derived.current_hp != 0 ==> r is None,
{
    if derived.current_hp == 0 {
        Some(
            ApplyStatusEvent {
                target,
                effect: StatusEffectType::Dead,
                potency: POTENCY_ONE,
                duration: None,
            },
        )
    } else {
        None
    }
}


// ─── Laws ────────────────────────────────────────────────────────────────────

/// No two effects share a type.
pub open spec fn types_unique(s: Seq<ActiveEffect>) -> bool {
    forall|i: int, j: int|
        0 <= i < s.len() && 0 <= j < s.len() && i != j ==> (#[trigger] s[i]).effect_type != (
        #[trigger] s[j]).effect_type
}

/// Stacking never duplicates: applying an effect to effects of distinct
/// types leaves the types distinct.
pub proof fn lemma_apply_keeps_types_unique(
    s: Seq<ActiveEffect>,
    effect: StatusEffectType,
    potency: u32,
    duration: Option<u32>,
)
    requires
        types_unique(s),
    ensures
        types_unique(applied(s, effect, potency, duration)),
{
    lemma_first_of(s, effect);
    let r = applied(s, effect, potency, duration);
    if !apply_is_noop(s, effect) && !holds(s, effect) {
        assert forall|i: int, j: int|
            0 <= i < r.len() && 0 <= j < r.len() && i != j implies (#[trigger] r[i]).effect_type
            != (#[trigger] r[j]).effect_type by {
            if i == s.len() as int {
                assert(s[j] == r[j]);
            } else if j == s.len() as int {
                assert(s[i] == r[i]);
            } else {
                assert(s[i] == r[i] && s[j] == r[j]);
            }
        }
    }
}

/// Re-applying Stone or Dead while it is present changes nothing.
pub proof fn lemma_permanent_reapply_is_noop(
    s: Seq<ActiveEffect>,
    effect: StatusEffectType,
    potency: u32,
    duration: Option<u32>,
)
    requires
        is_permanent(effect),
        holds(s, effect),
    ensures
        applied(s, effect, potency, duration) == s,
{
}

/// Refreshing an effect that is present keeps a single entry of that type,
/// takes the new duration, and never lowers the potency.
pub proof fn lemma_refresh_takes_higher_potency(
    s: Seq<ActiveEffect>,
    effect: StatusEffectType,
    potency: u32,
    duration: Option<u32>,
)
    requires
        !is_permanent(effect),
        holds(s, effect),
    ensures
        applied(s, effect, potency, duration).len() == s.len(),
        applied(s, effect, potency, duration)[first_of(s, effect)].remaining_turns == duration,
        applied(s, effect, potency, duration)[first_of(s, effect)].magnitude >= potency,
        applied(s, effect, potency, duration)[first_of(s, effect)].magnitude >= s[first_of(
            s,
            effect,
        )].magnitude,
{
    lemma_first_of(s, effect);
}

/// A tick never adds effects, and keeps every effect that survives it:
/// permanent effects unchanged, and timed ones one turn shorter.
pub proof fn lemma_tick_keeps_lasting(s: Seq<ActiveEffect>)
    ensures
        ticked_all(s).len() <= s.len(),
        forall|i: int|
            0 <= i < s.len() && (#[trigger] ticked(s[i])) is Some ==> ticked_all(s).contains(
                ticked(s[i])->0,
            ),
        forall|i: int|
            0 <= i < s.len() && (#[trigger] s[i]).remaining_turns is None ==> ticked_all(
                s,
            ).contains(s[i]),
    decreases s.len(),
{
    if s.len() > 0 {
        let q = s.drop_last();
        lemma_tick_keeps_lasting(q);
        let t = ticked_all(s);
        let tq = ticked_all(q);
        assert forall|k: int| 0 <= k < tq.len() implies t.contains(#[trigger] tq[k]) by {
            if ticked(s.last()) is Some {
                assert(t[k] == tq[k]);
            }
        }
        assert forall|i: int|
            0 <= i < s.len() && (#[trigger] ticked(s[i])) is Some implies t.contains(
            ticked(s[i])->0,
        ) by {
            if i < q.len() {
                assert(q[i] == s[i]);
                assert(tq.contains(ticked(q[i])->0));
                let k = choose|k: int| 0 <= k < tq.len() && tq[k] == ticked(q[i])->0;
                assert(t.contains(tq[k]));
            } else {
                assert(t[t.len() - 1] == ticked(s[i])->0);
            }
        }
        assert forall|i: int|
            0 <= i < s.len() && (#[trigger] s[i]).remaining_turns is None implies t.contains(
            s[i],
        ) by {
            assert(ticked(s[i]) == Some(s[i]));
        }
    }
}

} // verus!
