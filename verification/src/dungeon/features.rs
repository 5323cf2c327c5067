//! What happens when the party steps onto a cell: traps, teleporters,
//! spinners and anti-magic zones. Each reaction reads the destination cell
//! of one step.

use crate::character::{DerivedStats, EntityId, StatusEffectType, StatusEffects};
use crate::combat::status_effects::{apply_status_handler, applied, ApplyStatusEvent};
use crate::dungeon::floor::{
    cell_features, CellFeatures, Direction, DungeonFloor, GridPosition, TeleportTarget, TrapType,
};
use vstd::prelude::*;

verus! {

/// One committed step of the party.
#[derive(Clone, Copy, Debug, PartialEq, Eq, Structural)]
pub struct MovedEvent {
    pub from: GridPosition,
    pub to: GridPosition,
    pub facing: Direction,
}

/// Where an encounter request comes from.
#[derive(Clone, Copy, Debug, PartialEq, Eq, Structural)]
pub enum EncounterSource {
    AlarmTrap,
    Random,
}

/// A request to start an encounter.
#[derive(Clone, Copy, Debug, PartialEq, Eq, Structural)]
pub struct EncounterRequested {
    pub source: EncounterSource,
}

/// A request to move the party to another floor.
#[derive(Clone, Copy, Debug, PartialEq, Eq, Structural)]
pub struct TeleportRequested {
    pub target: TeleportTarget,
}

/// The destination cell of a step is on the grid.
pub open spec fn lands_on_grid(f: DungeonFloor, ev: MovedEvent) -> bool {
    cell_features(f, ev.to.x, ev.to.y) is Some
}

/// The features of the destination cell of a step.
pub open spec fn landing(f: DungeonFloor, ev: MovedEvent) -> CellFeatures {
    cell_features(f, ev.to.x, ev.to.y)->0
}

fn landing_exec(f: &DungeonFloor, ev: &MovedEvent) -> (r: CellFeatures)
    requires
        lands_on_grid(*f, *ev),
    ensures
        r == landing(*f, *ev),
{
    f.features[ev.to.y as usize][ev.to.x as usize]
}

/// A pit's effect on one party member's hit points.
pub open spec fn pit_hp(d: DerivedStats, damage: u32) -> DerivedStats {
    DerivedStats {
        current_hp: if d.current_hp >= damage { (d.current_hp - damage) as u32 } else { 0 },
        ..d
    }
}

/// A pit trap on the destination cell: every party member loses `damage`
/// HP (stopping at zero); a pit to another floor also requests a teleport
/// there, to the same coordinates, keeping the facing. Returns whether a pit
/// was there and the teleport request.
pub fn apply_pit_trap(floor: &DungeonFloor, ev: &MovedEvent, party: &mut Vec<DerivedStats>) -> (r: (
    bool,
    Option<TeleportRequested>,
))
    requires
        lands_on_grid(*floor, *ev),
    ensures
        final(party)@.len() == old(party)@.len(),
        match landing(*floor, *ev).trap {
            Some(TrapType::Pit { damage, target_floor }) => {
                &&& r.0
                &&& forall|i: int| 0 <= i < old(party)@.len() ==> #[trigger] final(party)@[i] == pit_hp(old(party)@[i], damage)
                &&& r.1 == match target_floor {
                    Some(fl) => Some(TeleportRequested { target: TeleportTarget { floor: fl, x: ev.to.x, y: ev.to.y, facing: Some(ev.facing) } }),
                    None => None,
                }
            },
            _ => !r.0 && r.1 is None && final(party)@ == old(party)@,
        },
{
    let cell = landing_exec(floor, ev);
    let (damage, target_floor) = match cell.trap {
        Some(TrapType::Pit { damage, target_floor }) => (damage, target_floor),
        _ => return (false, None),
    };
    let mut i: usize = 0;
    while i < party.len()
        invariant
            0 <= i <= party@.len(),
            party@.len() == old(party)@.len(),
            forall|k: int| 0 <= k < i ==> #[trigger] party@[k] == pit_hp(old(party)@[k], damage),
            forall|k: int| i <= k < party@.len() ==> #[trigger] party@[k] == old(party)@[k],
        decreases party@.len() - i,
    {
        let mut d = party[i];
        d.current_hp = d.current_hp.saturating_sub(damage);
        party.set(i, d);
        i = i + 1;
    }
    let tp = match target_floor {
        Some(fl) => Some(TeleportRequested { target: TeleportTarget { floor: fl, x: ev.to.x, y: ev.to.y, facing: Some(ev.facing) } }),
        None => None,
    };
    (true, tp)
}

/// Turns of poison a poison trap inflicts.
pub const POISON_TRAP_TURNS: u32 = 5;

/// A poison trap on the destination cell: every party member is poisoned
/// for five turns through the status handler, so a member already poisoned
/// keeps one Poison entry, refreshed to five turns. Returns whether the
/// trap was there.
pub fn apply_poison_trap(floor: &DungeonFloor, ev: &MovedEvent, party: &mut Vec<StatusEffects>) -> (r: bool)
    requires
        lands_on_grid(*floor, *ev),
    ensures
        r == (landing(*floor, *ev).trap == Some(TrapType::Poison)),
        final(party)@.len() == old(party)@.len(),
        forall|i: int| 0 <= i < old(party)@.len() ==> (#[trigger] final(party)@[i]).effects@ == if r {
            applied(old(party)@[i].effects@, StatusEffectType::Poison, 0, Some(POISON_TRAP_TURNS))
        } else {
            old(party)@[i].effects@
        },
{
    let cell = landing_exec(floor, ev);
    match cell.trap {
        Some(TrapType::Poison) => {},
        _ => return false,
    }
    let mut i: usize = 0;
    while i < party.len()
        invariant
            0 <= i <= party@.len(),
            party@.len() == old(party)@.len(),
            forall|k: int|
                0 <= k < i ==> (#[trigger] party@[k]).effects@ == applied(
                    old(party)@[k].effects@,
                    StatusEffectType::Poison,
                    0,
                    Some(POISON_TRAP_TURNS),
                ),
            forall|k: int| i <= k < party@.len() ==> (#[trigger] party@[k]).effects@ == old(party)@[k].effects@,
        decreases party@.len() - i,
    {
        let mut st = party.remove(i);
        // The handler reads the effect, potency and duration of the request;
        // the member's position in the list stands as its target.
        let request = ApplyStatusEvent {
            target: i as EntityId,
            effect: StatusEffectType::Poison,
            potency: 0,
            duration: Some(POISON_TRAP_TURNS),
        };
        apply_status_handler(&mut st, &request);
        party.insert(i, st);
        i = i + 1;
    }
    true
}

/// An alarm trap on the destination cell requests an encounter.
pub fn apply_alarm_trap(floor: &DungeonFloor, ev: &MovedEvent) -> (r: Option<EncounterRequested>)
    requires
        lands_on_grid(*floor, *ev),
    ensures
        r == if landing(*floor, *ev).trap == Some(TrapType::Alarm) {
            Some(EncounterRequested { source: EncounterSource::AlarmTrap })
        } else {
            None
        },
{
    let cell = landing_exec(floor, ev);
    match cell.trap {
        Some(TrapType::Alarm) => Some(EncounterRequested { source: EncounterSource::AlarmTrap }),
        _ => None,
    }
}

/// What a teleporter did.
#[derive(Clone, Copy, Debug, PartialEq, Eq, Structural)]
pub enum TeleportOutcome {
    /// No teleporter on the cell.
    NoTeleporter,
    /// The party was moved on this floor.
    SameFloor,
    /// A move to another floor is requested.
    OtherFloor(TeleportRequested),
}

/// A teleporter on the destination cell: to this floor, the party is moved
/// to the target (and turned to its facing, if it gives one); to another
/// floor, a teleport is requested.
pub fn apply_teleporter(
    floor: &DungeonFloor,
    ev: &MovedEvent,
    pos: &mut GridPosition,
    facing: &mut Direction,
) -> (r: TeleportOutcome)
    requires
        lands_on_grid(*floor, *ev),
    ensures
        match landing(*floor, *ev).teleporter {
            None => r == TeleportOutcome::NoTeleporter && *final(pos) == *old(pos) && *final(facing) == *old(facing),
            Some(t) => if t.floor == floor.floor_number {
                &&& r == TeleportOutcome::SameFloor
                &&& *final(pos) == (GridPosition { x: t.x, y: t.y })
                &&& *final(facing) == match t.facing {
                    Some(f) => f,
                    None => *old(facing),
                }
            } else {
                &&& r == TeleportOutcome::OtherFloor(TeleportRequested { target: t })
                &&& *final(pos) == *old(pos) && *final(facing) == *old(facing)
            },
        },
{
    let cell = landing_exec(floor, ev);
    match cell.teleporter {
        None => TeleportOutcome::NoTeleporter,
        Some(t) => {
            if t.floor == floor.floor_number {
                *pos = GridPosition { x: t.x, y: t.y };
                match t.facing {
                    Some(f) => {
                        *facing = f;
                    },
                    None => {},
                }
                TeleportOutcome::SameFloor
            } else {
                TeleportOutcome::OtherFloor(TeleportRequested { target: t })
            }
        },
    }
}

/// The spinner's directions, in the order the draw indexes them.
pub open spec fn spin_dir(i: int) -> Direction {
    if i == 0 {
        Direction::North
    } else if i == 1 {
        Direction::South
    } else if i == 2 {
        Direction::East
    } else {
        Direction::West
    }
}

fn spin_dir_exec(i: usize) -> (r: Direction)
    requires
        i < 4,
    ensures
        r == spin_dir(i as int),
{
    if i == 0 {
        Direction::North
    } else if i == 1 {
        Direction::South
    } else if i == 2 {
        Direction::East
    } else {
        Direction::West
    }
}

/// The facing after a spinner with draw `draw`: the direction at
/// `draw % 4` of North, South, East, West, or the next one when that is the
/// current facing.
pub open spec fn spun(facing: Direction, draw: usize) -> Direction {
    let i = draw % 4;
    if spin_dir(i as int) == facing { spin_dir(((i + 1) % 4) as int) } else { spin_dir(i as int) }
}

/// A spinner on the destination cell turns the party (see `spun`); the
/// draw comes from the clock. Returns whether it spun.
pub fn apply_spinner(floor: &DungeonFloor, ev: &MovedEvent, facing: &mut Direction, draw: usize) -> (r: bool)
    requires
        lands_on_grid(*floor, *ev),
    ensures
        r == landing(*floor, *ev).spinner,
        *final(facing) == if r { spun(*old(facing), draw) } else { *old(facing) },
{
    let cell = landing_exec(floor, ev);
    if !cell.spinner {
        return false;
    }
    let i = draw % 4;
    let d = spin_dir_exec(i);
    *facing = if d == *facing { spin_dir_exec((i + 1) % 4) } else { d };
    true
}

/// A pit never raises HP: it takes off `damage` (stopping at zero) and
/// leaves every other stat; two pits take off what one pit of their total
/// damage would.
pub proof fn lemma_pit_rules(d: DerivedStats, a: u32, b: u32)
    ensures
        pit_hp(d, a).current_hp + a >= d.current_hp,
        pit_hp(d, a).current_hp <= d.current_hp,
        d.current_hp >= a ==> pit_hp(d, a).current_hp + a == d.current_hp,
        d.current_hp < a ==> pit_hp(d, a).current_hp == 0,
        (DerivedStats { current_hp: d.current_hp, ..pit_hp(d, a) }) == d,
        a + b <= u32::MAX ==> pit_hp(pit_hp(d, a), b) == pit_hp(d, (a + b) as u32),
        pit_hp(d, 0) == d,
{
}

/// The spinner's draw picks North, South, East, West for draws 0 to 3 (and
/// so on, every four), passing to the next of them when the pick is the
/// current facing.
pub proof fn lemma_spinner_draws(facing: Direction, draw: usize)
    ensures
        draw % 4 == 0 && facing != Direction::North ==> spun(facing, draw) == Direction::North,
        draw % 4 == 1 && facing != Direction::South ==> spun(facing, draw) == Direction::South,
        draw % 4 == 2 && facing != Direction::East ==> spun(facing, draw) == Direction::East,
        draw % 4 == 3 && facing != Direction::West ==> spun(facing, draw) == Direction::West,
        draw % 4 == 0 && facing == Direction::North ==> spun(facing, draw) == Direction::South,
        draw % 4 == 1 && facing == Direction::South ==> spun(facing, draw) == Direction::East,
        draw % 4 == 2 && facing == Direction::East ==> spun(facing, draw) == Direction::West,
        draw % 4 == 3 && facing == Direction::West ==> spun(facing, draw) == Direction::North,
        draw + 4 <= usize::MAX ==> spun(facing, (draw + 4) as usize) == spun(facing, draw),
{
}

/// A spinner always changes the facing.
pub proof fn lemma_spinner_turns(facing: Direction, draw: usize)
    ensures
        spun(facing, draw) != facing,
{
}

/// What stepping did to the anti-magic marker.
#[derive(Clone, Copy, Debug, PartialEq, Eq, Structural)]
pub enum ZoneChange {
    Entered,
    Left,
    Unchanged,
}

/// The party is marked while it stands in an anti-magic zone: stepping in
/// adds the mark, stepping out removes it.
pub fn apply_anti_magic_zone(floor: &DungeonFloor, ev: &MovedEvent, marked: bool) -> (r: ZoneChange)
    requires
        lands_on_grid(*floor, *ev),
    ensures
        r == if landing(*floor, *ev).anti_magic_zone && !marked {
            ZoneChange::Entered
        } else if !landing(*floor, *ev).anti_magic_zone && marked {
            ZoneChange::Left
        } else {
            ZoneChange::Unchanged
        },
{
    let cell = landing_exec(floor, ev);
    if cell.anti_magic_zone && !marked {
        ZoneChange::Entered
    } else if !cell.anti_magic_zone && marked {
        ZoneChange::Left
    } else {
        ZoneChange::Unchanged
    }
}

} // verus!
