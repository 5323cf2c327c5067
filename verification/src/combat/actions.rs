//! The payload of a queued combat action and the side a combatant fights on.

use crate::character::EntityId;
use crate::combat::targeting::TargetSelection;
use vstd::prelude::*;

verus! {

/// The action a combatant has queued for this round.
#[derive(Debug)]
pub enum CombatActionKind {
    /// Physical attack with the equipped weapon.
    Attack,
    /// A one-turn DefenseUp on the actor.
    Defend,
    /// Casting the spell with this identifier.
    CastSpell { spell_id: String },
    /// Using the item with this identifier from the actor's inventory.
    UseItem { item: String },
    /// Trying to escape the fight.
    Flee,
}

impl Clone for CombatActionKind {
    fn clone(&self) -> (r: Self)
        ensures
            r == *self,
    {
        match self {
            CombatActionKind::Attack => CombatActionKind::Attack,
            CombatActionKind::Defend => CombatActionKind::Defend,
            CombatActionKind::CastSpell { spell_id } => CombatActionKind::CastSpell {
                spell_id: spell_id.clone(),
            },
            CombatActionKind::UseItem { item } => CombatActionKind::UseItem { item: item.clone() },
            CombatActionKind::Flee => CombatActionKind::Flee,
        }
    }
}

/// Which side of the battle a combatant belongs to. The party acts before
/// the enemies on a speed tie.
#[derive(Clone, Copy, Debug, PartialEq, Eq, Structural, PartialOrd, Ord, Hash)]
pub enum Side {
    Party,
    Enemy,
}

/// The tie-break rank of a side: the party before the enemies.
pub open spec fn side_rank(s: Side) -> int {
    match s {
        Side::Party => 0,
        Side::Enemy => 1,
    }
}

/// The tie-break rank of a side, as a number.
pub fn side_order(s: Side) -> (r: u8)
    ensures
        r == side_rank(s),
{
    match s {
        Side::Party => 0,
        Side::Enemy => 1,
    }
}

/// One queued action. The speed is captured when the action is queued, so a
/// speed change during the round does not reorder it.
#[derive(Debug)]
pub struct QueuedAction {
    pub actor: EntityId,
    pub kind: CombatActionKind,
    pub target: TargetSelection,
    pub speed_at_queue_time: u32,
    pub actor_side: Side,
    pub slot_index: u32,
}

impl Clone for QueuedAction {
    fn clone(&self) -> (r: Self)
        ensures
            r == *self,
    {
        QueuedAction {
            actor: self.actor,
            kind: self.kind.clone(),
            target: self.target,
            speed_at_queue_time: self.speed_at_queue_time,
            actor_side: self.actor_side,
            slot_index: self.slot_index,
        }
    }
}

} // verus!
