//! Target selection, and re-targeting when the chosen target has died.

use crate::character::EntityId;
use crate::combat::actions::Side;
use crate::rng::choose_index;
use rand::rngs::SmallRng;
use vstd::prelude::*;

verus! {

/// Whom an action is aimed at.
#[derive(Clone, Copy, Debug, PartialEq, Eq, Structural)]
pub enum TargetSelection {
    Single(EntityId),
    AllAllies,
    AllEnemies,
    Self_,
    Nobody,
}

/// The entries of `side` whose flag in `alive` is set, in order.
pub open spec fn alive_of(side: Seq<EntityId>, alive: Seq<bool>) -> Seq<EntityId>
    decreases side.len(),
{
    if side.len() == 0 || alive.len() < side.len() {
        Seq::empty()
    } else if alive[side.len() - 1] {
        alive_of(side.drop_last(), alive.take(side.len() - 1)).push(side.last())
    } else {
        alive_of(side.drop_last(), alive.take(side.len() - 1))
    }
}

/// The alive entries of `side` (`alive[i]` tells whether `side[i]` is alive).
pub fn alive_members(side: &Vec<EntityId>, alive: &Vec<bool>) -> (r: Vec<EntityId>)
    requires
        alive@.len() == side@.len(),
    ensures
        r@ == alive_of(side@, alive@),
{
    let mut out: Vec<EntityId> = Vec::new();
    let mut i: usize = 0;
    while i < side.len()
        invariant
            alive@.len() == side@.len(),
            0 <= i <= side@.len(),
            out@ == alive_of(side@.take(i as int), alive@.take(i as int)),
        decreases side@.len() - i,
    {
        assert(side@.take(i + 1).drop_last() == side@.take(i as int));
        assert(alive@.take(i + 1).take(i as int) == alive@.take(i as int));
        if alive[i] {
            out.push(side[i]);
        }
        i = i + 1;
    }
    assert(side@.take(side@.len() as int) == side@);
    assert(alive@.take(side@.len() as int) == alive@);
    out
}

/// `x` is an alive entry of `side`.
pub open spec fn is_alive_member(side: Seq<EntityId>, alive: Seq<bool>, x: EntityId) -> bool {
    exists|i: int| 0 <= i < side.len() && alive[i] && side[i] == x
}

pub proof fn lemma_alive_of_members(side: Seq<EntityId>, alive: Seq<bool>)
    requires
        alive.len() == side.len(),
    ensures
        forall|k: int|
            0 <= k < alive_of(side, alive).len() ==> is_alive_member(
                side,
                alive,
                #[trigger] alive_of(side, alive)[k],
            ),
        forall|i: int|
            0 <= i < side.len() && alive[i] ==> alive_of(side, alive).contains(#[trigger] side[i]),
    decreases side.len(),
{
    if side.len() > 0 {
        let q = side.drop_last();
        let a = alive.take(side.len() - 1);
        lemma_alive_of_members(q, a);
        let r = alive_of(side, alive);
        let rq = alive_of(q, a);
        assert forall|k: int| 0 <= k < r.len() implies is_alive_member(side, alive, #[trigger] r[k]) by {
            if k < rq.len() {
                assert(r[k] == rq[k]);
                assert(is_alive_member(q, a, rq[k]));
                let i = choose|i: int| 0 <= i < q.len() && a[i] && q[i] == rq[k];
                assert(side[i] == q[i] && alive[i] == a[i]);
            } else {
                assert(r[k] == side[side.len() - 1]);
                assert(alive[side.len() - 1]);
                assert(0 <= side.len() - 1 < side.len() && alive[side.len() - 1] && side[side.len() - 1] == r[k]);
            }
        }
        assert forall|i: int| 0 <= i < side.len() && alive[i] implies r.contains(
            #[trigger] side[i],
        ) by {
            if i < q.len() {
                assert(q[i] == side[i] && a[i] == alive[i]);
                assert(rq.contains(q[i]));
                let k = choose|k: int| 0 <= k < rq.len() && rq[k] == q[i];
                if alive[side.len() - 1] {
                    assert(r[k] == rq[k]);
                } else {
                    assert(r == rq);
                }
            } else {
                assert(r[r.len() - 1] == side[i]);
            }
        }
    }
}

/// Resolves a target selection to the alive combatants it hits.
///
/// `party_alive[i]` / `enemies_alive[i]` tell whether `party[i]` /
/// `enemies[i]` is alive; `actor_alive` whether the actor is.
/// A single target that is alive is kept; a dead one is replaced by a
/// randomly chosen alive member of the side it belongs to (the party if it
/// is listed there, else the enemies), or nothing if none is alive.
/// "All allies" / "all enemies" are the alive members of the actor's own /
/// the opposing side, in order; "self" is the actor if alive. Only the
/// replacement of a dead single target draws from `rng`.
pub fn resolve_target_with_fallback(
    selection: &TargetSelection,
    actor: EntityId,
    actor_side: Side,
    actor_alive: bool,
    party: &Vec<EntityId>,
    party_alive: &Vec<bool>,
    enemies: &Vec<EntityId>,
    enemies_alive: &Vec<bool>,
    target_alive: bool,
    rng: &mut SmallRng,
) -> (r: Vec<EntityId>)
    requires
        party_alive@.len() == party@.len(),
        enemies_alive@.len() == enemies@.len(),
    ensures
        match *selection {
            TargetSelection::Single(t) => if target_alive {
                r@ == seq![t]
            } else {
                let side = if party@.contains(t) {
                    alive_of(party@, party_alive@)
                } else {
                    alive_of(enemies@, enemies_alive@)
                };
                &&& (r@.len() == 0 <==> side.len() == 0)
                &&& r@.len() <= 1
                &&& r@.len() == 1 ==> side.contains(r@[0])
            },
            TargetSelection::AllAllies => r@ == if actor_side == Side::Party {
                alive_of(party@, party_alive@)
            } else {
                alive_of(enemies@, enemies_alive@)
            },
            TargetSelection::AllEnemies => r@ == if actor_side == Side::Party {
                alive_of(enemies@, enemies_alive@)
            } else {
                alive_of(party@, party_alive@)
            },
            TargetSelection::Self_ => r@ == if actor_alive {
                seq![actor]
            } else {
                Seq::<EntityId>::empty()
            },
            TargetSelection::Nobody => r@.len() == 0,
        },
        (match *selection {
            TargetSelection::Single(_) => target_alive,
            _ => true,
        }) ==> *final(rng) == *old(rng),
{
    match *selection {
        TargetSelection::Single(t) => {
            if target_alive {
                let mut v = Vec::new();
                v.push(t);
                v
            } else {
                let in_party = contains_id(party, t);
                let candidates = if in_party {
                    alive_members(party, party_alive)
                } else {
                    alive_members(enemies, enemies_alive)
                };
                let mut v = Vec::new();
                match choose_index(rng, candidates.len()) {
                    Some(i) => {
                        v.push(candidates[i]);
                    },
                    None => {},
                }
                v
            }
        },
        TargetSelection::AllAllies => {
            if actor_side == Side::Party {
                alive_members(party, party_alive)
            } else {
                alive_members(enemies, enemies_alive)
            }
        },
        TargetSelection::AllEnemies => {
            if actor_side == Side::Party {
                alive_members(enemies, enemies_alive)
            } else {
                alive_members(party, party_alive)
            }
        },
        TargetSelection::Self_ => {
            let mut v = Vec::new();
            if actor_alive {
                v.push(actor);
            }
            v
        },
        TargetSelection::Nobody => Vec::new(),
    }
}

/// `true` when `id` is listed in `v`.
pub fn contains_id(v: &Vec<EntityId>, id: EntityId) -> (r: bool)
    ensures
        r == v@.contains(id),
{
    let mut i: usize = 0;
    while i < v.len()
        invariant
            0 <= i <= v@.len(),
            forall|k: int| 0 <= k < i ==> v@[k] != id,
        decreases v@.len() - i,
    {
        if v[i] == id {
            return true;
        }
        i = i + 1;
    }
    false
}

} // verus!
