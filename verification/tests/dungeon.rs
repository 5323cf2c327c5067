use druum::character::{DerivedStats, StatusEffectType, StatusEffects};
use druum::data::items::{EquipSlot, ItemAsset, ItemKind};
use druum::dungeon::arrival::{
    active_floor_number, encounter_table_for, handle_teleport_request, party_start,
    redirect_to_dungeon_if_pending, PendingTeleport,
};
use druum::dungeon::features::{
    apply_alarm_trap, apply_anti_magic_zone, apply_pit_trap, apply_poison_trap, apply_spinner,
    apply_teleporter, EncounterSource, MovedEvent, TeleportOutcome, TeleportRequested, ZoneChange,
};
use druum::dungeon::floor::{
    CellFeatures, Direction, DungeonFloor, GridPosition, TeleportTarget, TrapType, WallMask,
    WallType,
};
use druum::dungeon::geometry::{dungeon_geometry_plan, wall_material, PlateKind, WallMaterial};
use druum::dungeon::movement::{
    can_move_with_doors, clear_door_resources, floor_asset_for, handle_door_interact,
    handle_dungeon_input, populate_locked_doors, DoorOutcome, DoorState, DoorStates, DungeonStep,
    LockedDoors, MovePresses, step_fits,
};

fn make_open_floor(w: u32, h: u32) -> DungeonFloor {
    DungeonFloor {
        name: "test".into(),
        width: w,
        height: h,
        floor_number: 1,
        walls: vec![vec![WallMask::default(); w as usize]; h as usize],
        features: vec![vec![CellFeatures::default(); w as usize]; h as usize],
        entry_point: (1, 1, Direction::North),
        encounter_table: "test_table".into(),
        locked_doors: Vec::new(),
    }
}

fn make_walled_floor(w: u32, h: u32) -> DungeonFloor {
    let solid = WallMask { north: WallType::Solid, south: WallType::Solid, east: WallType::Solid, west: WallType::Solid };
    let mut f = make_open_floor(w, h);
    f.walls = vec![vec![solid; w as usize]; h as usize];
    f
}

fn presses() -> MovePresses {
    MovePresses { forward: false, backward: false, strafe_left: false, strafe_right: false, turn_left: false, turn_right: false }
}

fn moved_to(x: u32, y: u32, facing: Direction) -> MovedEvent {
    MovedEvent { from: GridPosition { x: 0, y: 0 }, to: GridPosition { x, y }, facing }
}

fn floor_with_feature(feature: CellFeatures) -> DungeonFloor {
    let mut f = make_open_floor(3, 3);
    f.features[1][1] = feature;
    f
}

// ── Directions ──────────────────────────────────────────────────────────────

#[test]
fn direction_turns_and_offsets() {
    assert_eq!(Direction::North.offset(), (0, -1));
    assert_eq!(Direction::East.offset(), (1, 0));
    assert_eq!(Direction::South.offset(), (0, 1));
    assert_eq!(Direction::West.offset(), (-1, 0));
    assert_eq!(Direction::North.turn_right(), Direction::East);
    assert_eq!(Direction::North.turn_left(), Direction::West);
    assert_eq!(Direction::East.reverse(), Direction::West);
    for d in [Direction::North, Direction::East, Direction::South, Direction::West] {
        assert_eq!(d.turn_left().turn_right(), d);
        assert_eq!(d.turn_right().turn_right(), d.reverse());
    }
}

// ── Movement ────────────────────────────────────────────────────────────────

#[test]
fn handle_dungeon_input_moves_forward_one_cell() {
    let floor = make_open_floor(3, 3);
    let doors = DoorStates::new();
    let mut pos = GridPosition { x: floor.entry_point.0, y: floor.entry_point.1 };
    let mut facing = floor.entry_point.2;
    assert_eq!(pos, GridPosition { x: 1, y: 1 });
    let step = handle_dungeon_input(&MovePresses { forward: true, ..presses() }, &floor, &doors, &mut pos, &mut facing);
    assert_eq!(pos, GridPosition { x: 1, y: 0 }, "MoveForward should decrement y by 1");
    assert_eq!(step, DungeonStep::Moved { from: GridPosition { x: 1, y: 1 }, to: GridPosition { x: 1, y: 0 }, facing: Direction::North });
}

#[test]
fn step_fits_flags_steps_past_32_bit_coordinates() {
    let edge = GridPosition { x: i32::MAX as u32, y: 5 };
    // Facing East, forward steps to x + 1, past i32::MAX.
    assert!(!step_fits(&MovePresses { forward: true, ..presses() }, &edge, Direction::East));
    // Backward from facing East steps West, which fits.
    assert!(step_fits(&MovePresses { backward: true, ..presses() }, &edge, Direction::East));
    // 2^31 reads as i32::MIN, so a step West passes below it.
    let wrapped = GridPosition { x: 1u32 << 31, y: 0 };
    assert!(!step_fits(&MovePresses { forward: true, ..presses() }, &wrapped, Direction::West));
    // Turning only, or no press at all, never steps.
    assert!(step_fits(&MovePresses { turn_left: true, ..presses() }, &edge, Direction::East));
    assert!(step_fits(&presses(), &edge, Direction::East));
    assert!(step_fits(&MovePresses { forward: true, ..presses() }, &GridPosition { x: 1, y: 1 }, Direction::North));
}

#[test]
fn handle_dungeon_input_blocked_by_wall() {
    let mut floor = make_open_floor(3, 3);
    floor.walls[1][1].north = WallType::Solid;
    let doors = DoorStates::new();
    let mut pos = GridPosition { x: 1, y: 1 };
    let mut facing = Direction::North;
    let step = handle_dungeon_input(&MovePresses { forward: true, ..presses() }, &floor, &doors, &mut pos, &mut facing);
    assert_eq!(pos, GridPosition { x: 1, y: 1 }, "Wall bump should not change position");
    assert_eq!(step, DungeonStep::Stayed);
}

#[test]
fn handle_dungeon_input_turn_left_rotates_facing() {
    let floor = make_open_floor(3, 3);
    let doors = DoorStates::new();
    let mut pos = GridPosition { x: 1, y: 1 };
    let mut facing = Direction::North;
    let step = handle_dungeon_input(&MovePresses { turn_left: true, ..presses() }, &floor, &doors, &mut pos, &mut facing);
    assert_eq!(facing, Direction::West);
    assert_eq!(pos, GridPosition { x: 1, y: 1 });
    assert_eq!(step, DungeonStep::Turned { from: Direction::North, to: Direction::West });
}

#[test]
fn handle_dungeon_input_strafe_perpendicular_to_facing() {
    let floor = make_open_floor(3, 3);
    let doors = DoorStates::new();
    let mut pos = GridPosition { x: 1, y: 1 };
    let mut facing = Direction::North;
    handle_dungeon_input(&MovePresses { strafe_right: true, ..presses() }, &floor, &doors, &mut pos, &mut facing);
    assert_eq!(pos, GridPosition { x: 2, y: 1 }, "strafe right while facing north steps east");
    assert_eq!(facing, Direction::North, "strafing keeps the facing");
}

#[test]
fn movement_stops_at_grid_edge() {
    let floor = make_open_floor(3, 3);
    let doors = DoorStates::new();
    let mut pos = GridPosition { x: 0, y: 0 };
    let mut facing = Direction::North;
    let step = handle_dungeon_input(&MovePresses { forward: true, ..presses() }, &floor, &doors, &mut pos, &mut facing);
    assert_eq!(step, DungeonStep::Stayed);
    let mut facing = Direction::East;
    let mut pos = GridPosition { x: 2, y: 0 };
    let step = handle_dungeon_input(&MovePresses { forward: true, ..presses() }, &floor, &doors, &mut pos, &mut facing);
    assert_eq!(step, DungeonStep::Stayed);
}

#[test]
fn door_blocks_until_opened() {
    let mut floor = make_open_floor(3, 3);
    floor.walls[1][1].north = WallType::Door;
    let mut doors = DoorStates::new();
    let pos = GridPosition { x: 1, y: 1 };
    assert!(!can_move_with_doors(&floor, &doors, pos, Direction::North), "doors start closed");
    let locked = LockedDoors::new();
    let out = handle_door_interact(true, &floor, pos, Direction::North, &locked, &mut doors, &vec![]);
    assert_eq!(out, DoorOutcome::Opened);
    assert!(can_move_with_doors(&floor, &doors, pos, Direction::North));
    let out = handle_door_interact(true, &floor, pos, Direction::North, &locked, &mut doors, &vec![]);
    assert_eq!(out, DoorOutcome::Closed);
    assert_eq!(doors.get(1, 1, Direction::North), DoorState::Closed);
}

fn key(id: &str, door: &str) -> ItemAsset {
    ItemAsset { id: id.into(), display_name: id.into(), kind: ItemKind::KeyItem, slot: EquipSlot::NoSlot, key_id: Some(door.into()), ..Default::default() }
}

#[test]
fn locked_door_needs_matching_key() {
    let mut floor = make_open_floor(3, 3);
    floor.walls[1][1].east = WallType::LockedDoor;
    let mut doors = DoorStates::new();
    let pos = GridPosition { x: 1, y: 1 };
    let mut locked = LockedDoors::new();
    locked.insert(1, 1, Direction::East, "rusty_door_01".to_string());
    let wrong = vec![key("brass_key", "other_door")];
    assert_eq!(handle_door_interact(true, &floor, pos, Direction::East, &locked, &mut doors, &wrong), DoorOutcome::StillLocked);
    assert!(!can_move_with_doors(&floor, &doors, pos, Direction::East));
    let right = vec![key("rusty_key", "rusty_door_01")];
    assert_eq!(handle_door_interact(true, &floor, pos, Direction::East, &locked, &mut doors, &right), DoorOutcome::Unlocked);
    assert!(can_move_with_doors(&floor, &doors, pos, Direction::East));
    assert_eq!(right.len(), 1, "keys are not consumed");
    // No press: nothing.
    assert_eq!(handle_door_interact(false, &floor, pos, Direction::East, &locked, &mut doors, &right), DoorOutcome::Nothing);
}

#[test]
fn door_state_default_is_closed() {
    assert_eq!(DoorState::default(), DoorState::Closed);
}

#[test]
fn door_states_resource_round_trip() {
    let mut states = DoorStates::new();
    states.set(3, 1, Direction::East, DoorState::Open);
    assert_eq!(states.get(3, 1, Direction::East), DoorState::Open);
    assert_eq!(states.get(3, 1, Direction::West), DoorState::Closed);
}

#[test]
fn floor_asset_fallback() {
    assert_eq!(floor_asset_for(1), 1);
    assert_eq!(floor_asset_for(2), 2);
    assert_eq!(floor_asset_for(7), 1);
    assert_eq!(encounter_table_for(3), 1);
}

// ── Cell features ───────────────────────────────────────────────────────────

#[test]
fn pit_trap_damages_party() {
    let floor = floor_with_feature(CellFeatures { trap: Some(TrapType::Pit { damage: 5, target_floor: None }), ..CellFeatures::default() });
    let mut party: Vec<DerivedStats> = (0..4).map(|_| { let mut d = DerivedStats::zero(); d.current_hp = 10; d }).collect();
    let (hit, tp) = apply_pit_trap(&floor, &moved_to(1, 1, Direction::North), &mut party);
    assert!(hit);
    assert!(tp.is_none());
    for d in &party {
        assert_eq!(d.current_hp, 5, "pit trap should subtract 5 damage from each member");
    }
}

#[test]
fn pit_trap_subtracts_damage_saturating() {
    let floor = floor_with_feature(CellFeatures { trap: Some(TrapType::Pit { damage: 5, target_floor: None }), ..CellFeatures::default() });
    let mut party = vec![{ let mut d = DerivedStats::zero(); d.current_hp = 3; d }];
    apply_pit_trap(&floor, &moved_to(1, 1, Direction::North), &mut party);
    assert_eq!(party[0].current_hp, 0, "saturating_sub clamps to 0; no underflow wraparound");
}

#[test]
fn pit_trap_with_target_floor_requests_teleport() {
    let floor = floor_with_feature(CellFeatures { trap: Some(TrapType::Pit { damage: 1, target_floor: Some(2) }), ..CellFeatures::default() });
    let mut party = vec![DerivedStats::zero(); 4];
    let (_, tp) = apply_pit_trap(&floor, &moved_to(1, 1, Direction::East), &mut party);
    let req = tp.expect("pit trap with target_floor should emit a TeleportRequested");
    assert_eq!(req.target.floor, 2, "TeleportRequested target floor should be 2");
    assert_eq!(req.target, TeleportTarget { floor: 2, x: 1, y: 1, facing: Some(Direction::East) });
}

#[test]
fn poison_trap_applies_status() {
    let floor = floor_with_feature(CellFeatures { trap: Some(TrapType::Poison), ..CellFeatures::default() });
    let mut party = vec![StatusEffects::new(), StatusEffects::new()];
    assert!(apply_poison_trap(&floor, &moved_to(1, 1, Direction::North), &mut party));
    for s in &party {
        assert!(s.has(StatusEffectType::Poison));
        assert_eq!(s.effects[0].remaining_turns, Some(5));
    }
    // A plain cell does nothing.
    assert!(!apply_poison_trap(&floor, &moved_to(0, 0, Direction::North), &mut party));
    assert_eq!(party[0].effects.len(), 1);
    // A second trap refreshes the one Poison entry instead of adding another.
    party[0].effects[0].remaining_turns = Some(1);
    assert!(apply_poison_trap(&floor, &moved_to(1, 1, Direction::North), &mut party));
    assert_eq!(party[0].effects.len(), 1);
    assert_eq!(party[0].effects[0].remaining_turns, Some(5));
}

#[test]
fn alarm_trap_publishes_encounter() {
    let floor = floor_with_feature(CellFeatures { trap: Some(TrapType::Alarm), ..CellFeatures::default() });
    let req = apply_alarm_trap(&floor, &moved_to(1, 1, Direction::North)).expect("alarm requests an encounter");
    assert_eq!(req.source, EncounterSource::AlarmTrap);
    assert!(apply_alarm_trap(&floor, &moved_to(2, 2, Direction::North)).is_none());
}

#[test]
fn same_floor_teleport_mutates_in_place() {
    let floor = floor_with_feature(CellFeatures {
        teleporter: Some(TeleportTarget { floor: 1, x: 2, y: 2, facing: Some(Direction::South) }),
        ..CellFeatures::default()
    });
    let mut pos = GridPosition { x: 1, y: 1 };
    let mut facing = Direction::North;
    let out = apply_teleporter(&floor, &moved_to(1, 1, Direction::North), &mut pos, &mut facing);
    assert_eq!(out, TeleportOutcome::SameFloor);
    assert_eq!(pos, GridPosition { x: 2, y: 2 }, "teleporter should mutate GridPosition to destination");
    assert_eq!(facing, Direction::South, "teleporter should update facing when target.facing is Some");
}

#[test]
fn cross_floor_teleport_publishes_request() {
    let target = TeleportTarget { floor: 2, x: 1, y: 1, facing: Some(Direction::South) };
    let floor = floor_with_feature(CellFeatures { teleporter: Some(target), ..CellFeatures::default() });
    let mut pos = GridPosition { x: 1, y: 1 };
    let mut facing = Direction::North;
    let out = apply_teleporter(&floor, &moved_to(1, 1, Direction::North), &mut pos, &mut facing);
    assert_eq!(out, TeleportOutcome::OtherFloor(TeleportRequested { target }));
    assert_eq!(pos, GridPosition { x: 1, y: 1 });
    assert_eq!(facing, Direction::North);
}

#[test]
fn spinner_randomizes_facing_and_attaches_wobble() {
    let floor = floor_with_feature(CellFeatures { spinner: true, ..CellFeatures::default() });
    for draw in 0..8usize {
        let mut facing = Direction::North;
        assert!(apply_spinner(&floor, &moved_to(1, 1, Direction::North), &mut facing, draw));
        assert_ne!(facing, Direction::North, "spinner must change facing (no-op spin avoided)");
    }
    let mut facing = Direction::East;
    apply_spinner(&floor, &moved_to(1, 1, Direction::East), &mut facing, 1);
    assert_eq!(facing, Direction::South);
}

#[test]
fn anti_magic_zone_lifecycle() {
    let mut floor = make_open_floor(2, 2);
    floor.features[0][1].anti_magic_zone = true;
    assert_eq!(apply_anti_magic_zone(&floor, &moved_to(1, 0, Direction::North), false), ZoneChange::Entered);
    assert_eq!(apply_anti_magic_zone(&floor, &moved_to(0, 0, Direction::West), true), ZoneChange::Left);
    assert_eq!(apply_anti_magic_zone(&floor, &moved_to(0, 1, Direction::South), false), ZoneChange::Unchanged);
}

// ── Geometry ────────────────────────────────────────────────────────────────

#[test]
fn wall_material_returns_none_for_passable() {
    assert!(wall_material(WallType::Open).is_none());
    assert!(wall_material(WallType::OneWay).is_none());
}

#[test]
fn wall_material_returns_some_for_blocking() {
    assert_eq!(wall_material(WallType::Solid), Some(WallMaterial::Solid));
    assert_eq!(wall_material(WallType::SecretWall), Some(WallMaterial::Solid));
    assert_eq!(wall_material(WallType::Illusory), Some(WallMaterial::Solid));
    assert_eq!(wall_material(WallType::Door), Some(WallMaterial::Door));
    assert_eq!(wall_material(WallType::LockedDoor), Some(WallMaterial::Locked));
}

#[test]
fn spawn_dungeon_geometry_open_3x3_yields_18_entities() {
    let plan = dungeon_geometry_plan(&make_open_floor(3, 3));
    assert_eq!(plan.len(), 18, "Open 3×3 floor: 9 floor tiles + 9 ceiling tiles + 0 walls = 18");
}

#[test]
fn spawn_dungeon_geometry_walled_3x3_yields_42_entities() {
    let plan = dungeon_geometry_plan(&make_walled_floor(3, 3));
    assert_eq!(plan.len(), 42, "Walled 3×3 floor: 18 floor/ceiling + 24 walls = 42");
    let south = plan.iter().filter(|p| matches!(p.kind, PlateKind::Wall { dir: Direction::South, .. })).count();
    let east = plan.iter().filter(|p| matches!(p.kind, PlateKind::Wall { dir: Direction::East, .. })).count();
    assert_eq!((south, east), (3, 3));
}

#[test]
fn geometry_plate_count_on_mixed_floor() {
    let mut floor = make_open_floor(2, 2);
    floor.walls[0][0].north = WallType::Solid;
    floor.walls[0][1].west = WallType::Door;
    floor.walls[1][0].south = WallType::OneWay;
    floor.walls[1][1].south = WallType::LockedDoor;
    floor.walls[0][1].east = WallType::Illusory;
    floor.walls[1][0].east = WallType::Solid; // not on the right column: not drawn
    let plan = dungeon_geometry_plan(&floor);
    // 8 floor/ceiling + 1 north + 1 west + 1 bottom-row south + 1 right-column east.
    assert_eq!(plan.len(), 12);
    assert!(plan.iter().any(|p| p.x == 1 && p.y == 1 && p.kind == PlateKind::Wall { dir: Direction::South, material: WallMaterial::Locked }));
    assert!(plan.iter().any(|p| p.x == 1 && p.y == 0 && p.kind == PlateKind::Wall { dir: Direction::East, material: WallMaterial::Solid }));
}

// ── Arrival ─────────────────────────────────────────────────────────────────

#[test]
fn redirect_fires_when_pending_teleport_set() {
    let mut pending = PendingTeleport::default();
    let reqs = vec![
        TeleportRequested { target: TeleportTarget { floor: 2, x: 0, y: 0, facing: None } },
        TeleportRequested { target: TeleportTarget { floor: 2, x: 3, y: 4, facing: Some(Direction::West) } },
    ];
    assert!(handle_teleport_request(&reqs, &mut pending));
    assert_eq!(pending.target, Some(reqs[1].target), "last request wins");
    assert!(redirect_to_dungeon_if_pending(&pending));
    assert_eq!(active_floor_number(&pending), 2);
    let start = party_start(&mut pending, (1, 1, Direction::North));
    assert_eq!(start, (3, 4, Direction::West));
    assert!(pending.target.is_none());
}

#[test]
fn redirect_no_op_when_pending_teleport_unset() {
    let mut pending = PendingTeleport::default();
    assert!(!handle_teleport_request(&vec![], &mut pending));
    assert!(!redirect_to_dungeon_if_pending(&pending));
    assert_eq!(active_floor_number(&pending), 1);
    assert_eq!(party_start(&mut pending, (1, 1, Direction::North)), (1, 1, Direction::North));
}

#[test]
fn locked_doors_clear_idempotent() {
    let mut locked = LockedDoors::new();
    locked.insert(0, 0, Direction::North, "x".into());
    locked.clear();
    locked.insert(0, 0, Direction::North, "x".into());
    assert_eq!(locked.len(), 1, "clear-first guarantees idempotence");
}

#[test]
fn locked_doors_insert_replaces_same_edge() {
    let mut locked = LockedDoors::new();
    locked.insert(2, 3, Direction::East, "a".into());
    locked.insert(2, 3, Direction::West, "b".into());
    locked.insert(2, 3, Direction::East, "c".into());
    assert_eq!(locked.len(), 2);
    assert_eq!(locked.get(2, 3, Direction::East).map(|s| s.as_str()), Some("c"));
    assert_eq!(locked.get(2, 3, Direction::West).map(|s| s.as_str()), Some("b"));
    assert_eq!(locked.get(3, 2, Direction::East), None);
}

#[test]
fn populate_locked_doors_clears_first_and_last_entry_wins() {
    let mut locked = LockedDoors::new();
    locked.insert(9, 9, Direction::South, "stale".into());
    let list = vec![
        ((1, 1), Direction::North, "gate".to_string()),
        ((4, 0), Direction::East, "vault".to_string()),
        ((1, 1), Direction::North, "gate2".to_string()),
    ];
    populate_locked_doors(&mut locked, &list);
    assert_eq!(locked.get(9, 9, Direction::South), None);
    assert_eq!(locked.get(1, 1, Direction::North).map(|s| s.as_str()), Some("gate2"));
    assert_eq!(locked.get(4, 0, Direction::East).map(|s| s.as_str()), Some("vault"));
    assert_eq!(locked.len(), 2);
    // Entering the floor again restores the same locks.
    populate_locked_doors(&mut locked, &list);
    assert_eq!(locked.get(1, 1, Direction::North).map(|s| s.as_str()), Some("gate2"));
    assert_eq!(locked.get(4, 0, Direction::East).map(|s| s.as_str()), Some("vault"));
    assert_eq!(locked.len(), 2);
}

#[test]
fn clear_door_resources_resets_floor_visit() {
    let mut doors = DoorStates::new();
    doors.set(1, 1, Direction::North, DoorState::Open);
    let mut locked = LockedDoors::new();
    locked.insert(1, 1, Direction::North, "gate".into());
    clear_door_resources(&mut doors, &mut locked);
    assert_eq!(doors.get(1, 1, Direction::North), DoorState::Closed);
    assert_eq!(locked.len(), 0);
}

#[test]
fn door_edges_are_kept_apart() {
    let mut doors = DoorStates::new();
    doors.set(u32::MAX, u32::MAX, Direction::West, DoorState::Open);
    doors.set(0, 1, Direction::North, DoorState::Open);
    assert_eq!(doors.get(u32::MAX, u32::MAX, Direction::West), DoorState::Open);
    assert_eq!(doors.get(u32::MAX, u32::MAX, Direction::South), DoorState::Closed);
    assert_eq!(doors.get(1, 0, Direction::North), DoorState::Closed);
    assert_eq!(doors.get(0, 1, Direction::East), DoorState::Closed);
    doors.set(0, 1, Direction::North, DoorState::Closed);
    assert_eq!(doors.get(0, 1, Direction::North), DoorState::Closed);
    assert_eq!(doors.get(u32::MAX, u32::MAX, Direction::West), DoorState::Open);
}
