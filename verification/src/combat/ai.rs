//! Enemy behaviour: each enemy still in the fight queues one action a round.
//! The AI only queues actions; damage and status changes are left to the
//! round resolution.

use crate::character::{holds, DerivedStats, EntityId, StatusEffectType, StatusEffects};
use crate::combat::actions::{CombatActionKind, QueuedAction, Side};
use crate::combat::targeting::TargetSelection;
use crate::combat::turn_manager::{member_up, up_pairs, PartyMemberView, TurnActionQueue};
use crate::rng::choose_index;
use rand::rngs::SmallRng;
use vstd::prelude::*;

verus! {

/// How an enemy chooses its action.
#[derive(Clone, Copy, Debug, PartialEq, Eq, Structural)]
pub enum EnemyAi {
    /// Attacks a random party member still in the fight.
    RandomAttack,
    /// Attacks the party member with the fewest HP (the lower slot on a tie).
    BossFocusWeakest,
    /// Attack, Defend, Attack, by its counter modulo 3 (1 is Defend); the
    /// counter advances each round it acts.
    BossAttackDefendAttack { turn: u32 },
}

impl Default for EnemyAi {
    fn default() -> (r: Self)
        ensures
            r == EnemyAi::RandomAttack,
    {
        EnemyAi::RandomAttack
    }
}

/// An enemy as the AI sees it.
#[derive(Debug)]
pub struct AiEnemy {
    pub id: EntityId,
    pub ai: EnemyAi,
    /// The enemy's index in its group (its slot for the speed tie-break).
    pub index: u32,
    pub stats: DerivedStats,
    pub status: StatusEffects,
}

/// The enemy acts this round: neither Dead nor Stone, and HP left.
pub open spec fn enemy_acts(e: AiEnemy) -> bool {
    !holds(e.status.effects@, StatusEffectType::Dead) && !holds(
        e.status.effects@,
        StatusEffectType::Stone,
    ) && e.stats.current_hp >= 1
}

/// The indices of the enemies that act, in order.
pub open spec fn acting(es: Seq<AiEnemy>) -> Seq<int>
    decreases es.len(),
{
    if es.len() == 0 {
        Seq::empty()
    } else if enemy_acts(es.last()) {
        acting(es.drop_last()).push(es.len() - 1)
    } else {
        acting(es.drop_last())
    }
}


/// The enemies that act, in enemy order: exactly those with HP left that
/// are neither Dead nor Stone.
pub proof fn lemma_acting_rules(es: Seq<AiEnemy>)
    ensures
        forall|k: int|
            0 <= k < acting(es).len() ==> {
                let i = #[trigger] acting(es)[k];
                &&& 0 <= i < es.len()
                &&& es[i].stats.current_hp >= 1
                &&& !holds(es[i].status.effects@, StatusEffectType::Dead)
                &&& !holds(es[i].status.effects@, StatusEffectType::Stone)
            },
        forall|k1: int, k2: int|
            0 <= k1 < k2 < acting(es).len() ==> #[trigger] acting(es)[k1] < #[trigger] acting(es)[k2],
        forall|i: int|
            0 <= i < es.len() && (#[trigger] es[i]).stats.current_hp >= 1 && !holds(
                es[i].status.effects@,
                StatusEffectType::Dead,
            ) && !holds(es[i].status.effects@, StatusEffectType::Stone) ==> acting(es).contains(i),
    decreases es.len(),
{
    if es.len() > 0 {
        let q = es.drop_last();
        lemma_acting_rules(q);
        let r = acting(es);
        let rq = acting(q);
        assert forall|k: int| 0 <= k < rq.len() implies #[trigger] r[k] == rq[k] by {}
        assert forall|k: int| 0 <= k < rq.len() implies es[rq[k]] == #[trigger] q[rq[k]] by {}
        assert forall|i: int|
            0 <= i < es.len() && (#[trigger] es[i]).stats.current_hp >= 1 && !holds(
                es[i].status.effects@,
                StatusEffectType::Dead,
            ) && !holds(es[i].status.effects@, StatusEffectType::Stone) implies r.contains(i) by {
            if i < es.len() - 1 {
                assert(q[i] == es[i]);
                let k = choose|k: int| 0 <= k < rq.len() && rq[k] == i;
                assert(r[k] == rq[k]);
            } else {
                assert(enemy_acts(es.last()));
                assert(r[r.len() - 1] == i);
            }
        }
    }
}

/// `a` is weaker than `b`: fewer HP, or as many and a lower slot.
pub open spec fn weaker(a: PartyMemberView, b: PartyMemberView) -> bool {
    a.stats.current_hp < b.stats.current_hp || (a.stats.current_hp == b.stats.current_hp
        && a.slot < b.slot)
}

/// The position in `up` (pairs of member index and slot) of the first
/// weakest member.
pub open spec fn weakest(ms: Seq<PartyMemberView>, up: Seq<(usize, usize)>) -> int
    decreases up.len(),
{
    if up.len() <= 1 {
        0
    } else {
        let w = weakest(ms, up.drop_last());
        if weaker(ms[up.last().0 as int], ms[up[w].0 as int]) {
            up.len() - 1
        } else {
            w
        }
    }
}

/// The counter after an enemy of this kind acts.
pub open spec fn advanced(ai: EnemyAi) -> EnemyAi {
    match ai {
        EnemyAi::BossAttackDefendAttack { turn } => EnemyAi::BossAttackDefendAttack {
            turn: if turn < u32::MAX { (turn + 1) as u32 } else { u32::MAX },
        },
        _ => ai,
    }
}

/// `a` is an action the enemy `e` may queue against the party `ms`, whose
/// members still in the fight are `up`.
pub open spec fn enemy_action_ok(
    e: AiEnemy,
    ms: Seq<PartyMemberView>,
    up: Seq<(usize, usize)>,
    a: QueuedAction,
) -> bool {
    &&& a.actor == e.id
    &&& a.speed_at_queue_time == e.stats.speed
    &&& a.actor_side == Side::Enemy
    &&& a.slot_index == e.index
    &&& match e.ai {
        EnemyAi::BossFocusWeakest => a.kind == CombatActionKind::Attack && a.target
            == TargetSelection::Single(ms[up[weakest(ms, up)].0 as int].id),
        EnemyAi::BossAttackDefendAttack { turn } if turn % 3 == 1 => a.kind
            == CombatActionKind::Defend && a.target == TargetSelection::Self_,
        _ => a.kind == CombatActionKind::Attack && exists|k: int|
            0 <= k < up.len() && a.target == TargetSelection::Single(
                #[trigger] ms[up[k].0 as int].id,
            ),
    }
}

proof fn lemma_weakest(ms: Seq<PartyMemberView>, up: Seq<(usize, usize)>)
    requires
        up.len() > 0,
    ensures
        0 <= weakest(ms, up) < up.len(),
    decreases up.len(),
{
    if up.len() > 1 {
        lemma_weakest(ms, up.drop_last());
    }
}

/// The weakest member has no more HP than any other member of `up`, and the
/// lowest slot among those with as few HP.
pub proof fn lemma_weakest_is_lowest(ms: Seq<PartyMemberView>, up: Seq<(usize, usize)>)
    requires
        up.len() > 0,
    ensures
        0 <= weakest(ms, up) < up.len(),
        forall|k: int|
            0 <= k < up.len() ==> ms[up[weakest(ms, up)].0 as int].stats.current_hp <= ms[(
            #[trigger] up[k]).0 as int].stats.current_hp,
        forall|k: int|
            0 <= k < up.len() && ms[up[weakest(ms, up)].0 as int].stats.current_hp == ms[(
            #[trigger] up[k]).0 as int].stats.current_hp ==> ms[up[weakest(ms, up)].0 as int].slot
                <= ms[up[k].0 as int].slot,
    decreases up.len(),
{
    lemma_weakest(ms, up);
    if up.len() > 1 {
        let init = up.drop_last();
        lemma_weakest_is_lowest(ms, init);
        assert forall|k: int| 0 <= k < up.len() - 1 implies #[trigger] up[k] == init[k] by {}
        let w = weakest(ms, init);
        assert(up[w] == init[w]);
    }
}

/// A boss that focuses the weakest attacks a member in the fight with no
/// more HP than any other member in the fight.
pub proof fn lemma_boss_attacks_weakest(
    e: AiEnemy,
    ms: Seq<PartyMemberView>,
    up: Seq<(usize, usize)>,
    a: QueuedAction,
)
    requires
        e.ai == EnemyAi::BossFocusWeakest,
        up.len() > 0,
        enemy_action_ok(e, ms, up, a),
    ensures
        a.kind == CombatActionKind::Attack,
        exists|k: int|
            #![trigger up[k]]
            0 <= k < up.len() && a.target == TargetSelection::Single(ms[up[k].0 as int].id)
                && forall|j: int|
                0 <= j < up.len() ==> ms[up[k].0 as int].stats.current_hp <= ms[(
                #[trigger] up[j]).0 as int].stats.current_hp,
{
    lemma_weakest_is_lowest(ms, up);
    let w = weakest(ms, up);
    assert(up[w] == up[w]);
}

/// An Attack-Defend-Attack boss defends (itself) exactly on counters one
/// past a multiple of three and otherwise attacks a member in the fight; its
/// counter advances by one each round it acts (stopping at the maximum).
pub proof fn lemma_attack_defend_attack_cycle(
    e: AiEnemy,
    ms: Seq<PartyMemberView>,
    up: Seq<(usize, usize)>,
    a: QueuedAction,
    turn: u32,
)
    requires
        e.ai == (EnemyAi::BossAttackDefendAttack { turn }),
        enemy_action_ok(e, ms, up, a),
    ensures
        a.kind == CombatActionKind::Defend <==> turn % 3 == 1,
        a.kind == CombatActionKind::Defend ==> a.target == TargetSelection::Self_,
        a.kind != CombatActionKind::Defend ==> a.kind == CombatActionKind::Attack && exists|k: int|
            0 <= k < up.len() && a.target == TargetSelection::Single(#[trigger] ms[up[k].0 as int].id),
        turn < u32::MAX ==> advanced(e.ai) == (EnemyAi::BossAttackDefendAttack { turn: (turn + 1) as u32 }),
        turn == u32::MAX ==> advanced(e.ai) == e.ai,
{
}

/// A randomly attacking enemy attacks some member in the fight.
pub proof fn lemma_random_attack_targets_member(
    e: AiEnemy,
    ms: Seq<PartyMemberView>,
    up: Seq<(usize, usize)>,
    a: QueuedAction,
)
    requires
        e.ai == EnemyAi::RandomAttack,
        enemy_action_ok(e, ms, up, a),
    ensures
        a.kind == CombatActionKind::Attack,
        a.actor == e.id && a.actor_side == Side::Enemy,
        exists|k: int|
            0 <= k < up.len() && a.target == TargetSelection::Single(#[trigger] ms[up[k].0 as int].id),
{
}

fn up_pairs_exec(ms: &Vec<PartyMemberView>) -> (r: Vec<(usize, usize)>)
    ensures
        r@ == up_pairs(ms@, ms@.len() as int),
        forall|j: int| 0 <= j < r@.len() ==> (#[trigger] r@[j]).0 < ms@.len(),
{
    let mut out: Vec<(usize, usize)> = Vec::new();
    let mut i: usize = 0;
    while i < ms.len()
        invariant
            0 <= i <= ms@.len(),
            out@ == up_pairs(ms@, i as int),
            forall|j: int| 0 <= j < out@.len() ==> (#[trigger] out@[j]).0 < i,
        decreases ms@.len() - i,
    {
        let m = &ms[i];
        if m.stats.current_hp > 0 && !m.status.has(StatusEffectType::Dead) && !m.status.has(
            StatusEffectType::Stone,
        ) {
            out.push((i, m.slot));
        }
        i = i + 1;
    }
    out
}

fn weakest_exec(ms: &Vec<PartyMemberView>, up: &Vec<(usize, usize)>) -> (r: usize)
    requires
        up@.len() > 0,
        forall|j: int| 0 <= j < up@.len() ==> (#[trigger] up@[j]).0 < ms@.len(),
    ensures
        r == weakest(ms@, up@),
        r < up@.len(),
{
    let mut best: usize = 0;
    let mut k: usize = 1;
    while k < up.len()
        invariant
            1 <= k <= up@.len(),
            forall|j: int| 0 <= j < up@.len() ==> (#[trigger] up@[j]).0 < ms@.len(),
            best == weakest(ms@, up@.take(k as int)),
            best < k,
        decreases up@.len() - k,
    {
        assert(up@.take(k + 1).drop_last() == up@.take(k as int));
        let c = &ms[up[k].0];
        let b = &ms[up[best].0];
        if c.stats.current_hp < b.stats.current_hp || (c.stats.current_hp == b.stats.current_hp
            && c.slot < b.slot) {
            best = k;
        }
        k = k + 1;
    }
    assert(up@.take(up@.len() as int) == up@);
    best
}

/// Queues one action for each enemy still in the fight (neither Dead nor
/// Stone, HP left), in enemy order, unless no party member is in the fight,
/// in which case nothing happens (see `enemy_action_ok` for the choice).
/// The counter of an Attack-Defend-Attack enemy advances when it acts.
pub fn enemy_ai_action_select(
    enemies: &mut Vec<AiEnemy>,
    party: &Vec<PartyMemberView>,
    queue: &mut TurnActionQueue,
    rng: &mut SmallRng,
)
    ensures
        final(enemies)@.len() == old(enemies)@.len(),
        up_pairs(party@, party@.len() as int).len() == 0 ==> {
            &&& final(queue).queue@ == old(queue).queue@
            &&& forall|i: int| 0 <= i < old(enemies)@.len() ==> (#[trigger] final(enemies)@[i]).ai
                == old(enemies)@[i].ai
        },
        up_pairs(party@, party@.len() as int).len() > 0 ==> {
            let act = acting(old(enemies)@);
            let up = up_pairs(party@, party@.len() as int);
            &&& final(queue).queue@.len() == old(queue).queue@.len() + act.len()
            &&& final(queue).queue@.take(old(queue).queue@.len() as int) == old(queue).queue@
            &&& forall|k: int|
                0 <= k < act.len() ==> enemy_action_ok(
                    old(enemies)@[act[k]],
                    party@,
                    up,
                    #[trigger] final(queue).queue@[old(queue).queue@.len() + k],
                )
            &&& forall|i: int|
                0 <= i < old(enemies)@.len() ==> (#[trigger] final(enemies)@[i]).ai == if enemy_acts(
                    old(enemies)@[i],
                ) {
                    advanced(old(enemies)@[i].ai)
                } else {
                    old(enemies)@[i].ai
                }
        },
        forall|i: int|
            0 <= i < old(enemies)@.len() ==> {
                &&& (#[trigger] final(enemies)@[i]).id == old(enemies)@[i].id
                &&& final(enemies)@[i].index == old(enemies)@[i].index
                &&& final(enemies)@[i].stats == old(enemies)@[i].stats
                &&& final(enemies)@[i].status.effects@ == old(enemies)@[i].status.effects@
            },
{
    let up = up_pairs_exec(party);
    if up.len() == 0 {
        return;
    }
    let ghost es0 = enemies@;
    let ghost q0 = queue.queue@;
    let mut i: usize = 0;
    while i < enemies.len()
        invariant
            0 <= i <= enemies@.len(),
            enemies@.len() == es0.len(),
            up@ == up_pairs(party@, party@.len() as int),
            up@.len() > 0,
            forall|j: int| 0 <= j < up@.len() ==> (#[trigger] up@[j]).0 < party@.len(),
            queue.queue@.len() == q0.len() + acting(es0.take(i as int)).len(),
            queue.queue@.take(q0.len() as int) == q0,
            forall|k: int|
                0 <= k < acting(es0.take(i as int)).len() ==> enemy_action_ok(
                    es0[acting(es0.take(i as int))[k]],
                    party@,
                    up@,
                    #[trigger] queue.queue@[q0.len() + k],
                ),
            forall|j: int| 0 <= j < i ==> (#[trigger] enemies@[j]).ai == if enemy_acts(es0[j]) {
                advanced(es0[j].ai)
            } else {
                es0[j].ai
            },
            forall|j: int| i <= j < es0.len() ==> (#[trigger] enemies@[j]).ai == es0[j].ai,
            forall|j: int|
                0 <= j < es0.len() ==> {
                    &&& (#[trigger] enemies@[j]).id == es0[j].id
                    &&& enemies@[j].index == es0[j].index
                    &&& enemies@[j].stats == es0[j].stats
                    &&& enemies@[j].status.effects@ == es0[j].status.effects@
                },
        decreases es0.len() - i,
    {
        proof {
            assert(es0.take(i + 1).drop_last() == es0.take(i as int));
            assert(es0.take(i + 1).last() == es0[i as int]);
        }
        let e = &enemies[i];
        if e.status.has(StatusEffectType::Dead) || e.status.has(StatusEffectType::Stone)
            || e.stats.current_hp < 1 {
            i = i + 1;
            continue;
        }
        let (kind, target) = match e.ai {
            EnemyAi::RandomAttack => {
                let k = choose_index(rng, up.len()).unwrap();
                proof {
                    assert(party@[up@[k as int].0 as int].id == party@[up@[k as int].0 as int].id);
                }
                (CombatActionKind::Attack, TargetSelection::Single(party[up[k].0].id))
            },
            EnemyAi::BossFocusWeakest => {
                let w = weakest_exec(party, &up);
                (CombatActionKind::Attack, TargetSelection::Single(party[up[w].0].id))
            },
            EnemyAi::BossAttackDefendAttack { turn } => {
                if turn % 3 == 1 {
                    (CombatActionKind::Defend, TargetSelection::Self_)
                } else {
                    let k = choose_index(rng, up.len()).unwrap();
                    proof {
                        assert(party@[up@[k as int].0 as int].id == party@[up@[k as int].0 as int].id);
                    }
                    (CombatActionKind::Attack, TargetSelection::Single(party[up[k].0].id))
                }
            },
        };
        let a = QueuedAction {
            actor: e.id,
            kind,
            target,
            speed_at_queue_time: e.stats.speed,
            actor_side: Side::Enemy,
            slot_index: e.index,
        };
        let ghost qb = queue.queue@;
        queue.queue.push(a);
        match enemies[i].ai {
            EnemyAi::BossAttackDefendAttack { turn } => {
                let mut en = enemies.remove(i);
                en.ai = EnemyAi::BossAttackDefendAttack { turn: turn.saturating_add(1) };
                enemies.insert(i, en);
            },
            _ => {},
        }
        proof {
            assert(acting(es0.take(i + 1)) == acting(es0.take(i as int)).push(i as int));
            assert forall|k: int|
                0 <= k < acting(es0.take(i + 1)).len() implies enemy_action_ok(
                es0[acting(es0.take(i + 1))[k]],
                party@,
                up@,
                #[trigger] queue.queue@[q0.len() + k],
            ) by {
                if k < acting(es0.take(i as int)).len() {
                    assert(queue.queue@[q0.len() + k] == qb[q0.len() + k]);
                }
            }
            assert(queue.queue@.take(q0.len() as int) =~= q0);
        }
        i = i + 1;
    }
    proof {
        assert(es0.take(es0.len() as int) == es0);
    }
}

} // verus!
