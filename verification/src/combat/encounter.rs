//! Starting combat from the dungeon: the step counter that raises the
//! encounter chance, the suppression by nearby foes, and the roster of a
//! new encounter drawn from the floor's table.

use crate::character::{BaseStats, DerivedStats, EntityId};
use crate::combat::ai::EnemyAi;
use crate::data::encounters::{table_draws, EncounterTable, EnemyGroup, EnemySpec};
use crate::data::enemies::EnemyDb;
use crate::data::lookup::{first_with_key, has_key};
use crate::dungeon::features::{EncounterRequested, EncounterSource};
use rand::rngs::SmallRng;
use vstd::prelude::*;

verus! {

/// Most enemies spawned for one encounter; a larger group is cut to its
/// first ones.
pub const MAX_ENEMIES_PER_ENCOUNTER: usize = 8;

/// Placeholder colour channel (0.5) for an enemy whose looks are unknown, as
/// a single-precision bit pattern.
pub const DEFAULT_COLOR_CHANNEL: u32 = 0x3F00_0000;

/// Steps taken since the last encounter.
#[derive(Clone, Copy, Debug, PartialEq, Eq, Structural)]
pub struct EncounterState {
    pub steps_since_last: u32,
}

impl Default for EncounterState {
    fn default() -> (r: Self)
        ensures
            r.steps_since_last == 0,
    {
        EncounterState { steps_since_last: 0 }
    }
}

impl EncounterState {
    /// Counts one more step (stopping at `u32::MAX`).
    pub fn record_step(&mut self)
        ensures
            final(self).steps_since_last == if old(self).steps_since_last < u32::MAX {
                (old(self).steps_since_last + 1) as u32
            } else {
                u32::MAX
            },
    {
        self.steps_since_last = self.steps_since_last.saturating_add(1);
    }

    /// Starts counting afresh (after an encounter, or on entering the dungeon).
    pub fn reset(&mut self)
        ensures
            final(self).steps_since_last == 0,
    {
        self.steps_since_last = 0;
    }
}

/// The foes near the party.
#[derive(Clone, Debug)]
pub struct FoeProximity {
    pub nearby_foe_entities: Vec<EntityId>,
}

impl FoeProximity {
    /// Random encounters are not rolled while a foe is near.
    pub fn suppresses_random_rolls(&self) -> (r: bool)
        ensures
            r == (self.nearby_foe_entities@.len() > 0),
    {
        self.nearby_foe_entities.len() > 0
    }
}

/// The encounter in progress: its enemies and whether the party may flee.
#[derive(Clone, Debug)]
pub struct CurrentEncounter {
    pub enemy_entities: Vec<EntityId>,
    pub fleeable: bool,
}

/// One enemy to spawn.
#[derive(Clone, Debug)]
pub struct EnemySpawn {
    /// Position in the group: its index (and slot) in the fight.
    pub index: u32,
    pub name: String,
    pub base_stats: BaseStats,
    pub derived_stats: DerivedStats,
    pub ai: EnemyAi,
    /// Key into the enemy roster for its looks.
    pub visual_id: String,
    /// Its placeholder colour (single-precision bit patterns).
    pub placeholder_color: [u32; 3],
}

/// The colour the roster gives `id`, or the default grey.
pub open spec fn color_for(db: Option<EnemyDb>, id: Seq<char>) -> [u32; 3] {
    match db {
        Some(d) => if id.len() > 0 && has_key(d.enemies@, id) {
            d.enemies@[first_with_key(d.enemies@, id)].placeholder_color
        } else {
            [DEFAULT_COLOR_CHANNEL, DEFAULT_COLOR_CHANNEL, DEFAULT_COLOR_CHANNEL]
        },
        None => [DEFAULT_COLOR_CHANNEL, DEFAULT_COLOR_CHANNEL, DEFAULT_COLOR_CHANNEL],
    }
}

/// `s` is the spawn of `spec` at position `i`.
pub open spec fn spawn_of(s: EnemySpawn, spec: EnemySpec, i: int, db: Option<EnemyDb>) -> bool {
    &&& s.index == i
    &&& s.name@ == spec.name@
    &&& s.base_stats == spec.base_stats
    &&& s.derived_stats == spec.derived_stats
    &&& s.ai == spec.ai
    &&& s.visual_id@ == spec.id@
    &&& s.placeholder_color == color_for(db, spec.id@)
}

/// The enemies to spawn for `group`: its first `MAX_ENEMIES_PER_ENCOUNTER`
/// members in order, indexed from 0, each with its looks from the roster
/// (grey when the roster or the entry is missing).
pub fn plan_encounter(group: &EnemyGroup, db: Option<&EnemyDb>) -> (r: Vec<EnemySpawn>)
    ensures
        r@.len() == if group.enemies@.len() <= MAX_ENEMIES_PER_ENCOUNTER {
            group.enemies@.len()
        } else {
            MAX_ENEMIES_PER_ENCOUNTER as nat
        },
        forall|i: int|
            0 <= i < r@.len() ==> spawn_of(
                #[trigger] r@[i],
                group.enemies@[i],
                i,
                match db {
                    Some(d) => Some(*d),
                    None => None,
                },
            ),
{
    let n = if group.enemies.len() <= MAX_ENEMIES_PER_ENCOUNTER {
        group.enemies.len()
    } else {
        MAX_ENEMIES_PER_ENCOUNTER
    };
    let ghost dbv = match db {
        Some(d) => Some(*d),
        None => None,
    };
    let mut out: Vec<EnemySpawn> = Vec::new();
    let mut i: usize = 0;
    while i < n
        invariant
            0 <= i <= n,
            n <= group.enemies@.len(),
            n <= MAX_ENEMIES_PER_ENCOUNTER,
            dbv == match db {
                Some(d) => Some(*d),
                None => None,
            },
            out@.len() == i,
            forall|k: int| 0 <= k < i ==> spawn_of(#[trigger] out@[k], group.enemies@[k], k, dbv),
        decreases n - i,
    {
        let spec = &group.enemies[i];
        let color: [u32; 3] = match db {
            Some(d) => match d.find(spec.id.as_str()) {
                Some(def) => def.placeholder_color,
                None => [DEFAULT_COLOR_CHANNEL, DEFAULT_COLOR_CHANNEL, DEFAULT_COLOR_CHANNEL],
            },
            None => [DEFAULT_COLOR_CHANNEL, DEFAULT_COLOR_CHANNEL, DEFAULT_COLOR_CHANNEL],
        };
        out.push(
            EnemySpawn {
                index: i as u32,
                name: spec.name.clone(),
                base_stats: spec.base_stats,
                derived_stats: spec.derived_stats,
                ai: spec.ai,
                visual_id: spec.id.clone(),
                placeholder_color: color,
            },
        );
        i = i + 1;
    }
    out
}

/// Whether the party may flee an encounter from `source`: random and alarm
/// encounters can be fled.
pub fn fleeable_for(source: EncounterSource) -> (r: bool)
    ensures
        r,
{
    match source {
        EncounterSource::AlarmTrap | EncounterSource::Random => true,
    }
}

/// A new encounter: the enemies to spawn and whether it can be fled.
#[derive(Clone, Debug)]
pub struct EncounterPlan {
    pub spawns: Vec<EnemySpawn>,
    pub fleeable: bool,
}

/// Answers the first encounter request of a frame: with the floor's table
/// loaded and a group drawn from it (see `EncounterTable::pick_group`), the
/// plan of that group (see `plan_encounter`); otherwise nothing: no
/// request, no table, or a table no group can be drawn from (empty, all
/// weights 0, or weights summing past `u32::MAX`).
pub fn handle_encounter_request(
    request: Option<EncounterRequested>,
    table: Option<&EncounterTable>,
    db: Option<&EnemyDb>,
    rng: &mut SmallRng,
) -> (r: Option<EncounterPlan>)
    ensures
        r is Some <==> (request is Some && (match table {
            Some(t) => table_draws(*t),
            None => false,
        })),
        r matches Some(p) ==> {
            &&& p.fleeable
            &&& table matches Some(t) && exists|g: int|
                0 <= g < t.entries@.len() && {
                    let grp = (#[trigger] t.entries@[g]).group;
                    &&& p.spawns@.len() == if grp.enemies@.len() <= MAX_ENEMIES_PER_ENCOUNTER {
                        grp.enemies@.len()
                    } else {
                        MAX_ENEMIES_PER_ENCOUNTER as nat
                    }
                    &&& forall|i: int|
                        0 <= i < p.spawns@.len() ==> spawn_of(
                            #[trigger] p.spawns@[i],
                            grp.enemies@[i],
                            i,
                            match db {
                                Some(d) => Some(*d),
                                None => None,
                            },
                        )
                }
        },
{
    let req = match request {
        Some(q) => q,
        None => return None,
    };
    let t = match table {
        Some(t) => t,
        None => return None,
    };
    let group = match t.pick_group(rng) {
        Some(g) => g,
        None => return None,
    };
    let spawns = plan_encounter(group, db);
    Some(EncounterPlan { spawns, fleeable: fleeable_for(req.source) })
}

} // verus!
