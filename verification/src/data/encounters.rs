//! Encounter tables: weighted groups of enemies, one table per floor.

use crate::character::{BaseStats, DerivedStats};
use crate::combat::ai::EnemyAi;
use crate::rng::{weight_sum, weighted_pick};
use rand::rngs::SmallRng;
use vstd::prelude::*;

verus! {

/// One enemy of a group, with its stats given inline.
#[derive(Clone, Debug)]
pub struct EnemySpec {
    /// Key into the enemy roster for its looks; empty for none.
    pub id: String,
    pub name: String,
    pub base_stats: BaseStats,
    pub derived_stats: DerivedStats,
    pub ai: EnemyAi,
}

/// Enemies met together.
#[derive(Clone, Debug)]
pub struct EnemyGroup {
    pub enemies: Vec<EnemySpec>,
}

/// A group and its weight in the table.
#[derive(Clone, Debug)]
pub struct EncounterEntry {
    pub weight: u32,
    pub group: EnemyGroup,
}

/// The encounter table of a floor.
#[derive(Clone, Debug)]
pub struct EncounterTable {
    pub id: String,
    pub entries: Vec<EncounterEntry>,
}

/// Lowest and highest weight a table entry counts with.
pub const MIN_ENCOUNTER_WEIGHT: u32 = 1;
pub const MAX_ENCOUNTER_WEIGHT: u32 = 10_000;

/// A weight held within `[MIN_ENCOUNTER_WEIGHT, MAX_ENCOUNTER_WEIGHT]`.
pub open spec fn clamped_weight(w: u32) -> u32 {
    if w < MIN_ENCOUNTER_WEIGHT {
        MIN_ENCOUNTER_WEIGHT
    } else if w > MAX_ENCOUNTER_WEIGHT {
        MAX_ENCOUNTER_WEIGHT
    } else {
        w
    }
}

/// The clamped weights of the entries.
pub open spec fn clamped_weights(es: Seq<EncounterEntry>) -> Seq<u32> {
    es.map_values(|e: EncounterEntry| clamped_weight(e.weight))
}


/// A weight is kept as it is when within `MIN_ENCOUNTER_WEIGHT` to
/// `MAX_ENCOUNTER_WEIGHT`, and otherwise brought to the nearer bound; a
/// larger weight is never clamped below a smaller one.
pub proof fn lemma_clamped_weight_rules(w: u32, w2: u32)
    ensures
        MIN_ENCOUNTER_WEIGHT <= clamped_weight(w) <= MAX_ENCOUNTER_WEIGHT,
        MIN_ENCOUNTER_WEIGHT <= w <= MAX_ENCOUNTER_WEIGHT ==> clamped_weight(w) == w,
        w < MIN_ENCOUNTER_WEIGHT ==> clamped_weight(w) == MIN_ENCOUNTER_WEIGHT,
        w > MAX_ENCOUNTER_WEIGHT ==> clamped_weight(w) == MAX_ENCOUNTER_WEIGHT,
        w <= w2 ==> clamped_weight(w) <= clamped_weight(w2),
{
}

/// Every entry has weight 0.
pub open spec fn all_weights_zero(es: Seq<EncounterEntry>) -> bool {
    forall|i: int| 0 <= i < es.len() ==> (#[trigger] es[i]).weight == 0
}

/// A group can be drawn from the table: it has entries, not all of weight 0,
/// and the clamped weights sum within `u32`.
pub open spec fn table_draws(t: EncounterTable) -> bool {
    &&& t.entries@.len() > 0
    &&& !all_weights_zero(t.entries@)
    &&& weight_sum(clamped_weights(t.entries@)) <= u32::MAX
}

impl EncounterTable {
    /// A group drawn with probability proportional to its weight, each
    /// weight held between 1 and 10 000. `None` for an empty table, for a
    /// table whose weights are all 0, and for a table whose clamped weights
    /// sum past `u32::MAX`; otherwise one of the table's groups.
    pub fn pick_group(&self, rng: &mut SmallRng) -> (r: Option<&EnemyGroup>)
        ensures
            r is None <==> !table_draws(*self),
            r matches Some(g) ==> exists|i: int|
                0 <= i < self.entries@.len() && *g == (#[trigger] self.entries@[i]).group,
    {
        if self.entries.len() == 0 {
            return None;
        }
        let mut weights: Vec<u32> = Vec::new();
        let mut any_positive = false;
        let mut i: usize = 0;
        while i < self.entries.len()
            invariant
                0 <= i <= self.entries@.len(),
                weights@ == clamped_weights(self.entries@.take(i as int)),
                any_positive <==> exists|k: int| 0 <= k < i && (#[trigger] self.entries@[k]).weight != 0,
            decreases self.entries@.len() - i,
        {
            let w = self.entries[i].weight;
            if w != 0 {
                any_positive = true;
            }
            let c = if w < MIN_ENCOUNTER_WEIGHT {
                MIN_ENCOUNTER_WEIGHT
            } else if w > MAX_ENCOUNTER_WEIGHT {
                MAX_ENCOUNTER_WEIGHT
            } else {
                w
            };
            weights.push(c);
            i = i + 1;
            assert(weights@ == clamped_weights(self.entries@.take(i as int)));
        }
        assert(self.entries@.take(self.entries@.len() as int) == self.entries@);
        if !any_positive {
            return None;
        }
        proof {
            lemma_weight_sum_positive(weights@);
        }
        match weighted_pick(rng, &weights) {
            Some(j) => Some(&self.entries[j].group),
            None => None,
        }
    }
}

/// Weights of at least 1 sum to a positive total.
pub proof fn lemma_weight_sum_positive(w: Seq<u32>)
    requires
        forall|i: int| 0 <= i < w.len() ==> w[i] >= 1,
    ensures
        w.len() > 0 ==> weight_sum(w) >= w.len(),
        weight_sum(w) >= 0,
    decreases w.len(),
{
    if w.len() > 0 {
        lemma_weight_sum_positive(w.drop_last());
    }
}

} // verus!
