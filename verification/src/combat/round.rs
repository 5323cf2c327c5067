//! Resolving a round of combat: each queued action in turn order.
//!
//! Status effects are read as they stood when the round began; hit points
//! are live, so an actor killed earlier in the round is "unable to act".
//! Status changes requested during the round (Defend's DefenseUp, Dead at
//! zero HP) are collected as events and applied after the round.

use crate::character::{holds, DerivedStats, EntityId, PartyRow, StatusEffectType, StatusEffects};
use crate::combat::actions::{CombatActionKind, QueuedAction, Side};
use crate::combat::combat_log::{keep_last, lines, CombatLog};
use crate::combat::damage::{attack_outcome, attack_view, damage_calc, Combatant};
use crate::combat::status_effects::{check_dead_and_apply, ApplyStatusEvent, POTENCY_HALF, POTENCY_ONE};
use crate::combat::targeting::{alive_of, contains_id, resolve_target_with_fallback, TargetSelection};
use crate::combat::turn_manager::{FleeAttempted, TurnActionQueue};
use crate::data::items::{ItemAsset, ItemDb, ItemKind};
use crate::ecs::{entity_debug, entity_debug_text};
use crate::data::lookup::{first_with_key, has_key};
use crate::rng::random_below;
use crate::text::{decimal, push_decimal};
use rand::rngs::SmallRng;
use vstd::prelude::*;
use vstd::string::*;

verus! {

/// A combatant as the round resolution sees it.
#[derive(Debug)]
pub struct RoundCombatant {
    pub id: EntityId,
    pub name: String,
    pub side: Side,
    /// Derived stats; the hit points change during the round.
    pub stats: DerivedStats,
    /// Status effects as at the start of the round.
    pub status: StatusEffects,
    pub row: PartyRow,
    /// The equipped weapon, if any.
    pub weapon: Option<ItemAsset>,
    /// Identifiers of the carried items, in inventory order.
    pub inventory: Vec<String>,
}

/// Everything a round of actions reads and changes.
#[derive(Debug)]
pub struct RoundState {
    /// The party members and enemies, each identifier once.
    pub combatants: Vec<RoundCombatant>,
    pub log: CombatLog,
    pub flee: FleeAttempted,
    /// Status effects to apply once the round is over, in request order.
    pub events: Vec<ApplyStatusEvent>,
}

// ─── Specifications ─────────────────────────────────────────────────────────

/// No identifier occurs twice.
pub open spec fn ids_unique(cs: Seq<RoundCombatant>) -> bool {
    forall|i: int, j: int| 0 <= i < j < cs.len() ==> (#[trigger] cs[i]).id != (#[trigger] cs[j]).id
}

/// The index of the combatant `id`, or `cs.len()` when absent.
pub open spec fn find(cs: Seq<RoundCombatant>, id: EntityId) -> int
    decreases cs.len(),
{
    if cs.len() == 0 {
        0
    } else if cs[0].id == id {
        0
    } else {
        1 + find(cs.drop_first(), id)
    }
}

/// Still in the fight: HP left, and neither Dead nor Stone when the round began.
pub open spec fn fighting(c: RoundCombatant) -> bool {
    c.stats.current_hp > 0 && !holds(c.status.effects@, StatusEffectType::Dead) && !holds(
        c.status.effects@,
        StatusEffectType::Stone,
    )
}

/// `id` is a combatant still in the fight.
pub open spec fn alive_in(cs: Seq<RoundCombatant>, id: EntityId) -> bool {
    find(cs, id) < cs.len() && fighting(cs[find(cs, id)])
}

/// The name shown for `id`; an unknown identifier is shown as `Entity(..)`
/// around the engine's text for it (its decimal value when the bits form no
/// entity).
pub open spec fn name_in(cs: Seq<RoundCombatant>, id: EntityId) -> Seq<char> {
    if find(cs, id) < cs.len() {
        cs[find(cs, id)].name@
    } else {
        "Entity("@ + match entity_debug_text(id) {
            Some(t) => t,
            None => decimal(id as nat),
        } + ")"@
    }
}

/// The identifiers of the members of `side` still in the fight, in order.
pub open spec fn alive_ids(cs: Seq<RoundCombatant>, side: Side) -> Seq<EntityId>
    decreases cs.len(),
{
    if cs.len() == 0 {
        Seq::empty()
    } else if cs.last().side == side && fighting(cs.last()) {
        alive_ids(cs.drop_last(), side).push(cs.last().id)
    } else {
        alive_ids(cs.drop_last(), side)
    }
}

pub open spec fn first_or_none(s: Seq<EntityId>) -> Option<EntityId> {
    if s.len() == 0 { None } else { Some(s[0]) }
}

/// `t` is a target an attack may strike: a living single target is kept;
/// a fallen one is replaced by some living enemy (the party list handed to
/// the targeting rule holds only living members, so a fallen target is
/// never found there); "all allies" / "all enemies" strike the first living
/// member of that side; "self" the actor; "nobody" nothing.
pub open spec fn attack_target_ok(cs: Seq<RoundCombatant>, a: QueuedAction, t: Option<EntityId>) -> bool {
    let party = alive_ids(cs, Side::Party);
    let enemies = alive_ids(cs, Side::Enemy);
    match a.target {
        TargetSelection::Single(t0) => if alive_in(cs, t0) {
            t == Some(t0)
        } else {
            &&& (t is None <==> enemies.len() == 0)
            &&& (t matches Some(x) ==> enemies.contains(x))
        },
        TargetSelection::AllAllies => t == first_or_none(
            if a.actor_side == Side::Party { party } else { enemies },
        ),
        TargetSelection::AllEnemies => t == first_or_none(
            if a.actor_side == Side::Party { enemies } else { party },
        ),
        TargetSelection::Self_ => t == Some(a.actor),
        TargetSelection::Nobody => t is None,
    }
}

/// The combatant as the damage rules see it.
pub open spec fn as_combatant(c: RoundCombatant) -> Combatant {
    Combatant { name: c.name, stats: c.stats, row: c.row, status: c.status }
}

/// `cs` with the hit points of entry `i` set to `hp`.
pub open spec fn with_hp(cs: Seq<RoundCombatant>, i: int, hp: u32) -> Seq<RoundCombatant> {
    cs.update(i, RoundCombatant { stats: DerivedStats { current_hp: hp, ..cs[i].stats }, ..cs[i] })
}

/// The Dead effect requested for a combatant at zero HP.
pub open spec fn dead_event(t: EntityId) -> ApplyStatusEvent {
    ApplyStatusEvent { target: t, effect: StatusEffectType::Dead, potency: POTENCY_ONE, duration: None }
}

/// `post`'s log is `pre`'s with the line `(msg, turn)` pushed.
pub open spec fn logged(pre: CombatLog, post: CombatLog, msg: Seq<char>, turn: u32) -> bool {
    &&& post.capacity == pre.capacity
    &&& lines(post.entries@) == keep_last(lines(pre.entries@).push((msg, turn)), pre.capacity as nat)
}

/// Only the log changed, by the line `(msg, turn)`.
pub open spec fn only_logged(pre: RoundState, post: RoundState, msg: Seq<char>, turn: u32) -> bool {
    &&& post.combatants@ == pre.combatants@
    &&& logged(pre.log, post.log, msg, turn)
    &&& post.flee == pre.flee
    &&& post.events@ == pre.events@
}

/// Nothing changed.
pub open spec fn unchanged(pre: RoundState, post: RoundState) -> bool {
    &&& post.combatants@ == pre.combatants@
    &&& post.log.capacity == pre.log.capacity
    &&& lines(post.log.entries@) == lines(pre.log.entries@)
    &&& post.flee == pre.flee
    &&& post.events@ == pre.events@
}

/// An attack on `t` with these draws: the damage outcome is logged, the
/// target loses that many HP (stopping at zero) and, at zero, Dead is
/// requested for it.
pub open spec fn attack_hit<F: Fn(u32, u32, bool) -> u32>(
    pre: RoundState,
    a: QueuedAction,
    post: RoundState,
    turn: u32,
    scale: F,
    t: EntityId,
    hit_roll: u32,
    variance: u32,
    crit_roll: u32,
    scaled: u32,
) -> bool {
    let cs = pre.combatants@;
    let ai = find(cs, a.actor);
    let ti = find(cs, t);
    let att = as_combatant(cs[ai]);
    let def = as_combatant(cs[ti]);
    let dr = attack_view(att, def, cs[ai].weapon is Some, hit_roll, crit_roll, scaled);
    let hp: u32 = if cs[ti].stats.current_hp >= dr.0 {
        (cs[ti].stats.current_hp - dr.0) as u32
    } else {
        0
    };
    &&& attack_target_ok(cs, a, Some(t))
    &&& ti < cs.len()
    &&& attack_outcome(att, def, cs[ai].weapon is Some, scale, dr, hit_roll, variance, crit_roll, scaled)
    &&& post.combatants@ == with_hp(cs, ti, hp)
    &&& logged(pre.log, post.log, dr.3, turn)
    &&& post.flee == pre.flee
    &&& post.events@ == if hp == 0 { pre.events@.push(dead_event(t)) } else { pre.events@ }
}

/// The first entry of `inv` that is `item`, removed (all of `inv` if none).
pub open spec fn remove_first_item(inv: Seq<String>, item: Seq<char>) -> Seq<String>
    decreases inv.len(),
{
    if inv.len() == 0 {
        inv
    } else if inv[0]@ == item {
        inv.drop_first()
    } else {
        seq![inv[0]] + remove_first_item(inv.drop_first(), item)
    }
}

/// The effect of using `item` from the actor's inventory.
pub open spec fn item_used(
    pre: RoundState,
    a: QueuedAction,
    post: RoundState,
    items: Seq<ItemAsset>,
    item: Seq<char>,
    turn: u32,
) -> bool {
    let cs = pre.combatants@;
    let ai = find(cs, a.actor);
    let name = name_in(cs, a.actor);
    if !has_key(items, item) {
        only_logged(pre, post, name + " fumbles an item."@, turn)
    } else {
        let asset = items[first_with_key(items, item)];
        if asset.kind == ItemKind::KeyItem {
            only_logged(pre, post, name + " cannot use "@ + asset.display_name@ + " in combat."@, turn)
        } else if asset.kind == ItemKind::Consumable {
            let heal = cs[ai].stats.max_hp / 4;
            if heal == 0 {
                unchanged(pre, post)
            } else {
                let sum = cs[ai].stats.current_hp + heal;
                let raised: int = if sum <= u32::MAX { sum } else { u32::MAX as int };
                let hp: u32 = if raised <= cs[ai].stats.max_hp {
                    raised as u32
                } else {
                    cs[ai].stats.max_hp
                };
                &&& post.combatants@ == cs.update(
                    ai,
                    RoundCombatant {
                        stats: DerivedStats { current_hp: hp, ..cs[ai].stats },
                        inventory: post.combatants@[ai].inventory,
                        ..cs[ai]
                    },
                )
                &&& post.combatants@[ai].inventory@ == remove_first_item(cs[ai].inventory@, item)
                &&& logged(pre.log, post.log, name + " drinks "@ + asset.display_name@ + "!"@, turn)
                &&& post.flee == pre.flee
                &&& post.events@ == if hp == 0 { pre.events@.push(dead_event(a.actor)) } else { pre.events@ }
            }
        } else {
            unchanged(pre, post)
        }
    }
}

/// Flight succeeds on a roll below 50 (of 100).
pub open spec fn flee_succeeds(roll: u32) -> bool {
    roll < 50
}

/// The line logged for a flight by `name` with this roll.
pub open spec fn flee_message(name: Seq<char>, roll: u32) -> Seq<char> {
    if flee_succeeds(roll) {
        name + " flees! Escape successful."@
    } else {
        name + " tried to flee but failed!"@
    }
}

/// `post` is `pre` after action `a`'s flight with roll `roll` (below 100):
/// flight is attempted; it succeeds when the roll is below 50, and a
/// success already won this round stands; the outcome is logged.
pub open spec fn flee_resolved(pre: RoundState, a: QueuedAction, post: RoundState, turn: u32, roll: u32) -> bool {
    &&& roll < 100
    &&& post.combatants@ == pre.combatants@
    &&& post.events@ == pre.events@
    &&& post.flee.attempted_this_round
    &&& post.flee.success == (pre.flee.success || flee_succeeds(roll))
    &&& logged(pre.log, post.log, flee_message(name_in(pre.combatants@, a.actor), roll), turn)
}

/// `post` is `pre` after resolving action `a` in round `turn`.
pub open spec fn action_resolved<F: Fn(u32, u32, bool) -> u32>(
    pre: RoundState,
    a: QueuedAction,
    post: RoundState,
    items: Seq<ItemAsset>,
    turn: u32,
    scale: F,
) -> bool {
    let cs = pre.combatants@;
    let name = name_in(cs, a.actor);
    if !alive_in(cs, a.actor) {
        only_logged(pre, post, name + " is unable to act."@, turn)
    } else {
        match a.kind {
            CombatActionKind::Attack => {
                ||| attack_target_ok(cs, a, None) && only_logged(
                    pre,
                    post,
                    name + "'s attack has no target."@,
                    turn,
                )
                ||| exists|t: EntityId, h: u32, v: u32, c: u32, s: u32|
                    #[trigger] attack_hit(pre, a, post, turn, scale, t, h, v, c, s)
            },
            CombatActionKind::Defend => {
                &&& post.combatants@ == cs
                &&& logged(pre.log, post.log, name + " defends!"@, turn)
                &&& post.flee == pre.flee
                &&& post.events@ == pre.events@.push(
                    ApplyStatusEvent {
                        target: a.actor,
                        effect: StatusEffectType::DefenseUp,
                        potency: POTENCY_HALF,
                        duration: Some(1),
                    },
                )
            },
            CombatActionKind::CastSpell { spell_id } => only_logged(
                pre,
                post,
                name + " casts "@ + spell_id@ + ": not yet implemented."@,
                turn,
            ),
            CombatActionKind::UseItem { item } => item_used(pre, a, post, items, item@, turn),
            CombatActionKind::Flee => exists|roll: u32| #[trigger] flee_resolved(pre, a, post, turn, roll),
        }
    }
}

/// An attack changes only its target's hit points, never raising them: the
/// target loses the attack's damage (stopping at zero), the line logged is
/// the attack's, and a target brought to zero is marked Dead.
pub proof fn lemma_attack_hit_rules<F: Fn(u32, u32, bool) -> u32>(
    pre: RoundState,
    a: QueuedAction,
    post: RoundState,
    turn: u32,
    scale: F,
    t: EntityId,
    hit_roll: u32,
    variance: u32,
    crit_roll: u32,
    scaled: u32,
)
    requires
        attack_hit(pre, a, post, turn, scale, t, hit_roll, variance, crit_roll, scaled),
    ensures
        ({
            let cs = pre.combatants@;
            let ti = find(cs, t);
            let ai = find(cs, a.actor);
            let dmg = attack_view(as_combatant(cs[ai]), as_combatant(cs[ti]), cs[ai].weapon is Some,
                hit_roll, crit_roll, scaled).0;
            let before = cs[ti].stats.current_hp;
            let after = post.combatants@[ti].stats.current_hp;
            &&& post.combatants@.len() == cs.len()
            &&& forall|j: int| 0 <= j < cs.len() && j != ti ==> #[trigger] post.combatants@[j] == cs[j]
            &&& after <= before
            &&& before >= dmg ==> after + dmg == before
            &&& before < dmg ==> after == 0
            &&& (DerivedStats { current_hp: before, ..post.combatants@[ti].stats }) == cs[ti].stats
            &&& post.events@ == if after == 0 { pre.events@.push(dead_event(t)) } else { pre.events@ }
        }),
{
    lemma_find(pre.combatants@, t);
    lemma_find(pre.combatants@, a.actor);
}

/// A potion (a consumable) heals a quarter of maximum HP, rounded down,
/// without passing maximum HP and without lowering HP already at or below
/// it, and uses up one such item from the drinker's inventory; one that
/// would heal nothing (maximum HP below 4) changes nothing.
pub proof fn lemma_potion_rules(
    pre: RoundState,
    a: QueuedAction,
    post: RoundState,
    items: Seq<ItemAsset>,
    item: Seq<char>,
    turn: u32,
)
    requires
        item_used(pre, a, post, items, item, turn),
        find(pre.combatants@, a.actor) < pre.combatants@.len(),
        has_key(items, item),
        items[first_with_key(items, item)].kind == ItemKind::Consumable,
    ensures
        ({
            let cs = pre.combatants@;
            let ai = find(cs, a.actor);
            let before = cs[ai].stats.current_hp;
            let max = cs[ai].stats.max_hp;
            &&& max < 4 ==> post == pre || unchanged(pre, post)
            &&& max >= 4 ==> {
                let after = post.combatants@[ai].stats.current_hp;
                &&& post.combatants@.len() == cs.len()
                &&& forall|j: int| 0 <= j < cs.len() && j != ai ==> #[trigger] post.combatants@[j] == cs[j]
                &&& after <= max
                &&& before <= max ==> before <= after
                &&& before <= max ==> (after == max || 4 * (after - before) <= max < 4 * (after
                    - before + 1))
                &&& post.combatants@[ai].inventory@ == remove_first_item(cs[ai].inventory@, item)
            }
        }),
{
    lemma_find(pre.combatants@, a.actor);
    let cs = pre.combatants@;
    let ai = find(cs, a.actor);
    let max = cs[ai].stats.max_hp;
    if max >= 4 {
        let heal = max / 4;
        assert(heal > 0);
    }
}

/// Defending logs "… defends!" and asks for DefenseUp at half potency for
/// one turn on the defender; nothing else changes.
pub proof fn lemma_defend_rules<F: Fn(u32, u32, bool) -> u32>(
    pre: RoundState,
    a: QueuedAction,
    post: RoundState,
    items: Seq<ItemAsset>,
    turn: u32,
    scale: F,
)
    requires
        action_resolved(pre, a, post, items, turn, scale),
        a.kind == CombatActionKind::Defend,
        alive_in(pre.combatants@, a.actor),
    ensures
        post.combatants@ == pre.combatants@,
        post.flee == pre.flee,
        post.events@.len() == pre.events@.len() + 1,
        post.events@.last() == (ApplyStatusEvent {
            target: a.actor,
            effect: StatusEffectType::DefenseUp,
            potency: POTENCY_HALF,
            duration: Some(1),
        }),
        lines(post.log.entries@) == keep_last(
            lines(pre.log.entries@).push((name_in(pre.combatants@, a.actor) + " defends!"@, turn)),
            pre.log.capacity as nat,
        ),
{
}

/// A flight succeeds on exactly the rolls 0 to 49 of 0 to 99.
pub proof fn lemma_flee_rules(roll: u32, name: Seq<char>)
    ensures
        roll < 50 ==> flee_succeeds(roll) && flee_message(name, roll) == name
            + " flees! Escape successful."@,
        roll >= 50 ==> !flee_succeeds(roll) && flee_message(name, roll) == name
            + " tried to flee but failed!"@,
{
}

// ─── Lookups ────────────────────────────────────────────────────────────────

pub proof fn lemma_find(cs: Seq<RoundCombatant>, id: EntityId)
    ensures
        0 <= find(cs, id) <= cs.len(),
        find(cs, id) < cs.len() ==> cs[find(cs, id)].id == id,
        forall|j: int| 0 <= j < find(cs, id) ==> (#[trigger] cs[j]).id != id,
    decreases cs.len(),
{
    if cs.len() > 0 && cs[0].id != id {
        lemma_find(cs.drop_first(), id);
        assert forall|j: int| 0 <= j < find(cs, id) implies (#[trigger] cs[j]).id != id by {
            if j > 0 {
                assert(cs[j] == cs.drop_first()[j - 1]);
            }
        }
    }
}

/// With unique identifiers, `find` gives the entry carrying the identifier.
pub proof fn lemma_find_unique(cs: Seq<RoundCombatant>, i: int)
    requires
        ids_unique(cs),
        0 <= i < cs.len(),
    ensures
        find(cs, cs[i].id) == i,
{
    lemma_find(cs, cs[i].id);
    if find(cs, cs[i].id) < i {
        assert(cs[find(cs, cs[i].id)].id == cs[i].id);
    }
}

pub proof fn lemma_alive_ids(cs: Seq<RoundCombatant>, side: Side)
    requires
        ids_unique(cs),
    ensures
        forall|x: EntityId| #[trigger] alive_ids(cs, side).contains(x) ==> alive_in(cs, x),
    decreases cs.len(),
{
    if cs.len() > 0 {
        let q = cs.drop_last();
        assert(ids_unique(q)) by {
            assert forall|i: int, j: int| 0 <= i < j < q.len() implies (#[trigger] q[i]).id != (
            #[trigger] q[j]).id by {
                assert(q[i] == cs[i] && q[j] == cs[j]);
            }
        }
        lemma_alive_ids(q, side);
        assert forall|x: EntityId| #[trigger] alive_ids(cs, side).contains(x) implies alive_in(cs, x) by {
            let l = cs.len() - 1;
            if cs.last().side == side && fighting(cs.last()) && x == cs.last().id {
                lemma_find_unique(cs, l);
            } else {
                assert(alive_ids(q, side).contains(x)) by {
                    if cs.last().side == side && fighting(cs.last()) {
                        let k = choose|k: int| 0 <= k < alive_ids(cs, side).len() && alive_ids(cs, side)[k] == x;
                        assert(k < alive_ids(q, side).len());
                        assert(alive_ids(q, side)[k] == x);
                    }
                }
                lemma_find(q, x);
                let k = find(q, x);
                assert(q[k] == cs[k]);
                lemma_find_unique(cs, k);
            }
        }
    }
}

fn find_exec(cs: &Vec<RoundCombatant>, id: EntityId) -> (r: usize)
    ensures
        r == find(cs@, id),
{
    proof {
        lemma_find(cs@, id);
    }
    let mut i: usize = 0;
    while i < cs.len()
        invariant
            0 <= i <= cs@.len(),
            i <= find(cs@, id) <= cs@.len(),
            find(cs@, id) < cs@.len() ==> cs@[find(cs@, id)].id == id,
            forall|j: int| 0 <= j < find(cs@, id) ==> (#[trigger] cs@[j]).id != id,
        decreases cs@.len() - i,
    {
        if cs[i].id == id {
            return i;
        }
        i = i + 1;
    }
    i
}

fn fighting_exec(c: &RoundCombatant) -> (r: bool)
    ensures
        r == fighting(*c),
{
    c.stats.current_hp > 0 && !c.status.has(StatusEffectType::Dead) && !c.status.has(
        StatusEffectType::Stone,
    )
}

fn alive_exec(cs: &Vec<RoundCombatant>, id: EntityId) -> (r: bool)
    ensures
        r == alive_in(cs@, id),
{
    let i = find_exec(cs, id);
    i < cs.len() && fighting_exec(&cs[i])
}

fn name_exec(cs: &Vec<RoundCombatant>, id: EntityId) -> (r: String)
    ensures
        r@ == name_in(cs@, id),
{
    let i = find_exec(cs, id);
    if i < cs.len() {
        cs[i].name.clone()
    } else {
        let mut s = String::new();
        s.append("Entity(");
        match entity_debug(id) {
            Some(t) => s.append(t.as_str()),
            None => push_decimal(&mut s, id),
        }
        s.append(")");
        s
    }
}

fn alive_ids_exec(cs: &Vec<RoundCombatant>, side: Side) -> (r: Vec<EntityId>)
    ensures
        r@ == alive_ids(cs@, side),
{
    let mut out: Vec<EntityId> = Vec::new();
    let mut i: usize = 0;
    while i < cs.len()
        invariant
            0 <= i <= cs@.len(),
            out@ == alive_ids(cs@.take(i as int), side),
        decreases cs@.len() - i,
    {
        assert(cs@.take(i + 1).drop_last() == cs@.take(i as int));
        if cs[i].side == side && fighting_exec(&cs[i]) {
            out.push(cs[i].id);
        }
        i = i + 1;
    }
    assert(cs@.take(cs@.len() as int) == cs@);
    out
}

fn all_true(n: usize) -> (r: Vec<bool>)
    ensures
        r@.len() == n,
        forall|i: int| 0 <= i < n ==> r@[i],
{
    let mut v: Vec<bool> = Vec::new();
    while v.len() < n
        invariant
            v@.len() <= n,
            forall|i: int| 0 <= i < v@.len() ==> v@[i],
        decreases n - v@.len(),
    {
        v.push(true);
    }
    v
}

pub proof fn lemma_alive_of_all_true(s: Seq<EntityId>, flags: Seq<bool>)
    requires
        flags.len() == s.len(),
        forall|i: int| 0 <= i < flags.len() ==> flags[i],
    ensures
        alive_of(s, flags) == s,
    decreases s.len(),
{
    if s.len() > 0 {
        lemma_alive_of_all_true(s.drop_last(), flags.take(s.len() - 1));
        assert(s.drop_last().push(s.last()) == s);
    }
}


pub open spec fn first_item_index(inv: Seq<String>, item: Seq<char>) -> int
    decreases inv.len(),
{
    if inv.len() == 0 {
        0
    } else if inv[0]@ == item {
        0
    } else {
        1 + first_item_index(inv.drop_first(), item)
    }
}

pub proof fn lemma_remove_first_item(inv: Seq<String>, item: Seq<char>)
    ensures
        0 <= first_item_index(inv, item) <= inv.len(),
        first_item_index(inv, item) < inv.len() ==> inv[first_item_index(inv, item)]@ == item,
        forall|j: int| 0 <= j < first_item_index(inv, item) ==> (#[trigger] inv[j])@ != item,
        remove_first_item(inv, item) == if first_item_index(inv, item) < inv.len() {
            inv.remove(first_item_index(inv, item))
        } else {
            inv
        },
    decreases inv.len(),
{
    if inv.len() > 0 && inv[0]@ != item {
        let t = inv.drop_first();
        lemma_remove_first_item(t, item);
        assert forall|j: int| 0 <= j < first_item_index(inv, item) implies (#[trigger] inv[j])@
            != item by {
            if j > 0 {
                assert(inv[j] == t[j - 1]);
            }
        }
        if first_item_index(t, item) < t.len() {
            assert(seq![inv[0]] + t.remove(first_item_index(t, item)) =~= inv.remove(
                first_item_index(inv, item),
            ));
        } else {
            assert(seq![inv[0]] + t =~= inv);
        }
    } else if inv.len() > 0 {
        assert(inv.drop_first() =~= inv.remove(0));
    }
}

/// Removes the first entry of `inv` equal to `item`, if any.
fn remove_first_item_exec(inv: &mut Vec<String>, item: &String)
    ensures
        final(inv)@ == remove_first_item(old(inv)@, item@),
{
    proof {
        lemma_remove_first_item(inv@, item@);
    }
    let ghost s = inv@;
    let mut j: usize = 0;
    while j < inv.len()
        invariant
            inv@ == s,
            s == old(inv)@,
            0 <= j <= s.len(),
            j <= first_item_index(s, item@) <= s.len(),
            first_item_index(s, item@) < s.len() ==> s[first_item_index(s, item@)]@ == item@,
            forall|k: int| 0 <= k < first_item_index(s, item@) ==> (#[trigger] s[k])@ != item@,
            remove_first_item(s, item@) == if first_item_index(s, item@) < s.len() {
                s.remove(first_item_index(s, item@))
            } else {
                s
            },
        decreases s.len() - j,
    {
        if inv[j] == *item {
            assert(j == first_item_index(s, item@));
            let _ = inv.remove(j);
            return;
        }
        j = j + 1;
    }
}

fn log_line(state: &mut RoundState, msg: String, turn: u32)
    ensures
        only_logged(*old(state), *final(state), msg@, turn),
{
    state.log.push(msg, turn);
}

/// The target of an attack, drawn when the chosen one has fallen.
fn attack_target(cs: &Vec<RoundCombatant>, a: &QueuedAction, rng: &mut SmallRng) -> (r: Option<
    EntityId,
>)
    requires
        ids_unique(cs@),
        alive_in(cs@, a.actor),
    ensures
        attack_target_ok(cs@, *a, r),
        r matches Some(t) ==> alive_in(cs@, t),
{
    let party = alive_ids_exec(cs, Side::Party);
    let enemies = alive_ids_exec(cs, Side::Enemy);
    let pf = all_true(party.len());
    let ef = all_true(enemies.len());
    let target_alive = match a.target {
        TargetSelection::Single(t) => alive_exec(cs, t),
        _ => false,
    };
    proof {
        lemma_alive_of_all_true(party@, pf@);
        lemma_alive_of_all_true(enemies@, ef@);
        lemma_alive_ids(cs@, Side::Party);
        lemma_alive_ids(cs@, Side::Enemy);
        if let TargetSelection::Single(t0) = a.target {
            if !alive_in(cs@, t0) {
                assert(!party@.contains(t0));
            }
        }
    }
    let targets = resolve_target_with_fallback(
        &a.target,
        a.actor,
        a.actor_side,
        true,
        &party,
        &pf,
        &enemies,
        &ef,
        target_alive,
        rng,
    );
    if targets.len() == 0 {
        return None;
    }
    let t = targets[0];
    proof {
        match a.target {
            TargetSelection::Single(t0) => {
                if !alive_in(cs@, t0) {
                    assert(enemies@.contains(t));
                }
            },
            TargetSelection::AllAllies => {
                if a.actor_side == Side::Party {
                    assert(party@[0] == t);
                    assert(party@.contains(t));
                } else {
                    assert(enemies@[0] == t);
                    assert(enemies@.contains(t));
                }
            },
            TargetSelection::AllEnemies => {
                if a.actor_side == Side::Party {
                    assert(enemies@[0] == t);
                    assert(enemies@.contains(t));
                } else {
                    assert(party@[0] == t);
                    assert(party@.contains(t));
                }
            },
            _ => {},
        }
    }
    Some(t)
}

/// `cs` with entry `i` replaced by `c`, where `c` differs from it only in its
/// hit points, still has unique identifiers and is `with_hp`.
proof fn lemma_with_hp(cs: Seq<RoundCombatant>, i: int, c: RoundCombatant, post: Seq<RoundCombatant>)
    requires
        ids_unique(cs),
        0 <= i < cs.len(),
        c == (RoundCombatant { stats: DerivedStats { current_hp: c.stats.current_hp, ..cs[i].stats }, ..cs[i] }),
        post == cs.remove(i).insert(i, c),
    ensures
        post == with_hp(cs, i, c.stats.current_hp),
        ids_unique(post),
{
    assert(post =~= with_hp(cs, i, c.stats.current_hp));
    assert forall|p: int, q: int| 0 <= p < q < post.len() implies (#[trigger] post[p]).id != (
    #[trigger] post[q]).id by {
        assert(post[p].id == cs[p].id && post[q].id == cs[q].id);
    }
}

fn attack_action<F: Fn(u32, u32, bool) -> u32 + Copy>(
    state: &mut RoundState,
    a: &QueuedAction,
    turn: u32,
    rng: &mut SmallRng,
    scale: F,
)
    requires
        ids_unique(old(state).combatants@),
        alive_in(old(state).combatants@, a.actor),
        a.kind is Attack,
        forall|raw: u32, v: u32, c: bool| call_requires(scale, (raw, v, c)),
    ensures
        action_resolved(*old(state), *a, *final(state), Seq::empty(), turn, scale),
        ids_unique(final(state).combatants@),
{
    let ghost cs = state.combatants@;
    let target = attack_target(&state.combatants, a, rng);
    let name = name_exec(&state.combatants, a.actor);
    let t = match target {
        None => {
            let mut msg = name;
            msg.append("'s attack has no target.");
            log_line(state, msg, turn);
            return;
        },
        Some(t) => t,
    };
    let ai = find_exec(&state.combatants, a.actor);
    let ti = find_exec(&state.combatants, t);
    let att = Combatant {
        name: state.combatants[ai].name.clone(),
        stats: state.combatants[ai].stats,
        row: state.combatants[ai].row,
        status: state.combatants[ai].status.clone(),
    };
    let def = Combatant {
        name: state.combatants[ti].name.clone(),
        stats: state.combatants[ti].stats,
        row: state.combatants[ti].row,
        status: state.combatants[ti].status.clone(),
    };
    let weapon: Option<&ItemAsset> = match &state.combatants[ai].weapon {
        Some(w) => Some(w),
        None => None,
    };
    let dr = damage_calc(&att, &def, weapon, &a.kind, rng, scale);
    let ghost has_weapon = cs[ai as int].weapon is Some;
    let ghost (h, v, c, sc) = choose|h: u32, v: u32, c: u32, sc: u32|
        attack_outcome(att, def, has_weapon, scale, dr@, h, v, c, sc);
    assert(attack_outcome(
        as_combatant(cs[ai as int]),
        as_combatant(cs[ti as int]),
        has_weapon,
        scale,
        dr@,
        h,
        v,
        c,
        sc,
    ));
    let damage = dr.damage;
    state.log.push(dr.message, turn);
    let mut ct = state.combatants.remove(ti);
    ct.stats.current_hp = ct.stats.current_hp.saturating_sub(damage);
    let ev = check_dead_and_apply(t, &ct.stats);
    let ghost c_new = ct;
    state.combatants.insert(ti, ct);
    match ev {
        Some(e) => {
            state.events.push(e);
        },
        None => {},
    }
    proof {
        lemma_with_hp(cs, ti as int, c_new, state.combatants@);
        assert(attack_hit(*old(state), *a, *state, turn, scale, t, h, v, c, sc));
    }
}


fn use_item_action(state: &mut RoundState, a: &QueuedAction, item: &String, items: &ItemDb, turn: u32)
    requires
        ids_unique(old(state).combatants@),
        alive_in(old(state).combatants@, a.actor),
        a.kind == (CombatActionKind::UseItem { item: *item }),
    ensures
        item_used(*old(state), *a, *final(state), items.items@, item@, turn),
        ids_unique(final(state).combatants@),
{
    let ghost cs = state.combatants@;
    let name = name_exec(&state.combatants, a.actor);
    let asset = match items.get(item.as_str()) {
        None => {
            let mut msg = name;
            msg.append(" fumbles an item.");
            log_line(state, msg, turn);
            return;
        },
        Some(asset) => asset,
    };
    if asset.kind == ItemKind::KeyItem {
        let mut msg = name;
        msg.append(" cannot use ");
        msg.append(asset.display_name.as_str());
        msg.append(" in combat.");
        log_line(state, msg, turn);
        return;
    }
    if asset.kind != ItemKind::Consumable {
        return;
    }
    let ai = find_exec(&state.combatants, a.actor);
    let heal = state.combatants[ai].stats.max_hp / 4;
    if heal == 0 {
        return;
    }
    let mut c = state.combatants.remove(ai);
    remove_first_item_exec(&mut c.inventory, item);
    let raised = c.stats.current_hp.saturating_add(heal);
    c.stats.current_hp = if raised <= c.stats.max_hp { raised } else { c.stats.max_hp };
    let ev = check_dead_and_apply(a.actor, &c.stats);
    let ghost c_new = c;
    state.combatants.insert(ai, c);
    match ev {
        Some(e) => {
            state.events.push(e);
        },
        None => {},
    }
    let mut msg = name;
    msg.append(" drinks ");
    msg.append(asset.display_name.as_str());
    msg.append("!");
    state.log.push(msg, turn);
    proof {
        let post = state.combatants@;
        assert(post =~= cs.update(
            ai as int,
            RoundCombatant {
                stats: DerivedStats { current_hp: c_new.stats.current_hp, ..cs[ai as int].stats },
                inventory: post[ai as int].inventory,
                ..cs[ai as int]
            },
        ));
        assert forall|p: int, q: int| 0 <= p < q < post.len() implies (#[trigger] post[p]).id != (
        #[trigger] post[q]).id by {
            assert(post[p].id == cs[p].id && post[q].id == cs[q].id);
        }
    }
}

/// Whether the party has fled after a flight roll of `roll`: a roll below
/// 50 escapes; a success already won this round stands.
pub fn flee_outcome(roll: u32, was: bool) -> (r: bool)
    ensures
        r == (was || flee_succeeds(roll)),
{
    was || roll < 50
}

/// Flight by `a`'s actor with the roll `roll` (see `flee_resolved`).
pub fn resolve_flee(state: &mut RoundState, a: &QueuedAction, turn: u32, roll: u32)
    requires
        roll < 100,
    ensures
        flee_resolved(*old(state), *a, *final(state), turn, roll),
{
    let mut msg = name_exec(&state.combatants, a.actor);
    state.flee.attempted_this_round = true;
    state.flee.success = flee_outcome(roll, state.flee.success);
    if roll < 50 {
        msg.append(" flees! Escape successful.");
    } else {
        msg.append(" tried to flee but failed!");
    }
    state.log.push(msg, turn);
}

fn flee_action(state: &mut RoundState, a: &QueuedAction, turn: u32, rng: &mut SmallRng)
    ensures
        exists|roll: u32| #[trigger] flee_resolved(*old(state), *a, *final(state), turn, roll),
{
    let roll = random_below(rng, 100);
    resolve_flee(state, a, turn, roll);
}

/// Resolves one queued action against the round state (see
/// `action_resolved`): an actor out of the fight is "unable to act"; an
/// attack strikes its target (re-targeted if fallen); Defend requests a
/// one-round DefenseUp of potency 0.5; a spell is not implemented yet; an
/// item is used from the inventory; flight succeeds on a roll below 50 of 100.
pub fn resolve_action<F: Fn(u32, u32, bool) -> u32 + Copy>(
    state: &mut RoundState,
    a: &QueuedAction,
    items: &ItemDb,
    turn: u32,
    rng: &mut SmallRng,
    scale: F,
)
    requires
        ids_unique(old(state).combatants@),
        forall|raw: u32, v: u32, c: bool| call_requires(scale, (raw, v, c)),
    ensures
        action_resolved(*old(state), *a, *final(state), items.items@, turn, scale),
        ids_unique(final(state).combatants@),
{
    if !alive_exec(&state.combatants, a.actor) {
        let mut msg = name_exec(&state.combatants, a.actor);
        msg.append(" is unable to act.");
        log_line(state, msg, turn);
        return;
    }
    match &a.kind {
        CombatActionKind::Attack => {
            attack_action(state, a, turn, rng, scale);
        },
        CombatActionKind::Defend => {
            state.events.push(
                ApplyStatusEvent {
                    target: a.actor,
                    effect: StatusEffectType::DefenseUp,
                    potency: POTENCY_HALF,
                    duration: Some(1),
                },
            );
            let mut msg = name_exec(&state.combatants, a.actor);
            msg.append(" defends!");
            state.log.push(msg, turn);
        },
        CombatActionKind::CastSpell { spell_id } => {
            let mut msg = name_exec(&state.combatants, a.actor);
            msg.append(" casts ");
            msg.append(spell_id.as_str());
            msg.append(": not yet implemented.");
            log_line(state, msg, turn);
        },
        CombatActionKind::UseItem { item } => {
            use_item_action(state, a, item, items, turn);
        },
        CombatActionKind::Flee => {
            flee_action(state, a, turn, rng);
        },
    }
}

/// `states` runs from `pre` to `post`, each step resolving the next action.
pub open spec fn round_trace<F: Fn(u32, u32, bool) -> u32>(
    states: Seq<RoundState>,
    actions: Seq<QueuedAction>,
    pre: RoundState,
    post: RoundState,
    items: Seq<ItemAsset>,
    turn: u32,
    scale: F,
) -> bool {
    &&& states.len() == actions.len() + 1
    &&& states[0] == pre
    &&& states.last() == post
    &&& forall|k: int|
        0 <= k < actions.len() ==> action_resolved(
            #[trigger] states[k],
            actions[k],
            states[k + 1],
            items,
            turn,
            scale,
        )
}

/// Resolves the round: drains the queue and resolves its actions in queue
/// order (see `resolve_action`).
pub fn execute_combat_actions<F: Fn(u32, u32, bool) -> u32 + Copy>(
    queue: &mut TurnActionQueue,
    state: &mut RoundState,
    items: &ItemDb,
    turn: u32,
    rng: &mut SmallRng,
    scale: F,
)
    requires
        ids_unique(old(state).combatants@),
        forall|raw: u32, v: u32, c: bool| call_requires(scale, (raw, v, c)),
    ensures
        final(queue).queue@.len() == 0,
        ids_unique(final(state).combatants@),
        exists|states: Seq<RoundState>|
            round_trace(
                states,
                old(queue).queue@,
                *old(state),
                *final(state),
                items.items@,
                turn,
                scale,
            ),
{
    let mut actions: Vec<QueuedAction> = Vec::new();
    std::mem::swap(&mut actions, &mut queue.queue);
    let ghost mut states: Seq<RoundState> = seq![*state];
    let mut k: usize = 0;
    while k < actions.len()
        invariant
            0 <= k <= actions@.len(),
            actions@ == old(queue).queue@,
            ids_unique(state.combatants@),
            forall|raw: u32, v: u32, c: bool| call_requires(scale, (raw, v, c)),
            states.len() == k + 1,
            states[0] == *old(state),
            states.last() == *state,
            forall|j: int|
                0 <= j < k ==> action_resolved(
                    #[trigger] states[j],
                    actions@[j],
                    states[j + 1],
                    items.items@,
                    turn,
                    scale,
                ),
        decreases actions@.len() - k,
    {
        resolve_action(state, &actions[k], items, turn, rng, scale);
        proof {
            states = states.push(*state);
        }
        k = k + 1;
    }
    assert(round_trace(states, old(queue).queue@, *old(state), *state, items.items@, turn, scale));
}

} // verus!
