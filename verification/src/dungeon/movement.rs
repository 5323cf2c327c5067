//! Moving the party on the grid: door states, passability with doors, the
//! step and turn commands, and opening doors.

use crate::data::items::{ItemAsset, ItemKind};
use crate::dungeon::floor::{
    can_move_spec, cell_walls, dir_dx, dir_dy, face, left_of, opposite, right_of, wall_towards,
    Direction, DungeonFloor, GridPosition, WallType,
};
use std::collections::HashMap;
use vstd::prelude::*;

verus! {

/// Whether a door edge is open.
#[derive(Clone, Copy, Debug, PartialEq, Eq, Structural)]
pub enum DoorState {
    Closed,
    Open,
}

impl Default for DoorState {
    fn default() -> (r: Self)
        ensures
            r == DoorState::Closed,
    {
        DoorState::Closed
    }
}

/// The number of a direction in an edge key.
pub open spec fn dir_code(d: Direction) -> int {
    match d {
        Direction::North => 0,
        Direction::East => 1,
        Direction::South => 2,
        Direction::West => 3,
    }
}

/// The key of the edge on face `d` of cell `(x, y)`: `x`, `y` and the
/// direction packed into one number, distinct for distinct edges (see
/// `lemma_edge_key_injective`).
pub open spec fn edge_key(x: u32, y: u32, d: Direction) -> u128 {
    (x as int * 0x4_0000_0000 + y as int * 4 + dir_code(d)) as u128
}

/// Distinct edges have distinct keys.
pub proof fn lemma_edge_key_injective(x1: u32, y1: u32, d1: Direction, x2: u32, y2: u32, d2: Direction)
    requires
        edge_key(x1, y1, d1) == edge_key(x2, y2, d2),
    ensures
        x1 == x2 && y1 == y2 && d1 == d2,
{
    let r1: int = y1 as int * 4 + dir_code(d1);
    let r2: int = y2 as int * 4 + dir_code(d2);
    let k1: int = x1 as int * 0x4_0000_0000 + r1;
    let k2: int = x2 as int * 0x4_0000_0000 + r2;
    assert(0 <= r1 < 0x4_0000_0000 && 0 <= r2 < 0x4_0000_0000);
    assert(x1 as int * 0x4_0000_0000 <= 0xFFFF_FFFF * 0x4_0000_0000) by (nonlinear_arith)
        requires
            x1 <= 0xFFFF_FFFF,
    ;
    assert(x2 as int * 0x4_0000_0000 <= 0xFFFF_FFFF * 0x4_0000_0000) by (nonlinear_arith)
        requires
            x2 <= 0xFFFF_FFFF,
    ;
    assert(k1 == k2);
    assert(x1 as int == x2 as int && r1 == r2) by (nonlinear_arith)
        requires
            x1 as int * 0x4_0000_0000 + r1 == x2 as int * 0x4_0000_0000 + r2,
            0 <= r1 < 0x4_0000_0000,
            0 <= r2 < 0x4_0000_0000,
            x1 >= 0,
            x2 >= 0,
    ;
    assert(y1 as int == y2 as int && dir_code(d1) == dir_code(d2)) by (nonlinear_arith)
        requires
            y1 as int * 4 + dir_code(d1) == y2 as int * 4 + dir_code(d2),
            0 <= dir_code(d1) < 4,
            0 <= dir_code(d2) < 4,
    ;
}

fn edge_key_exec(x: u32, y: u32, d: Direction) -> (r: u128)
    ensures
        r == edge_key(x, y, d),
{
    let c: u128 = match d {
        Direction::North => 0,
        Direction::East => 1,
        Direction::South => 2,
        Direction::West => 3,
    };
    assert(x as u128 * 0x4_0000_0000u128 <= 0xFFFF_FFFFu128 * 0x4_0000_0000u128) by (nonlinear_arith)
        requires
            x <= 0xFFFF_FFFFu32,
    ;
    (x as u128) * 0x4_0000_0000 + (y as u128) * 4 + c
}

/// The door states of the current floor visit, by edge key; an edge never
/// recorded is closed.
#[derive(Debug)]
pub struct DoorStates {
    pub doors: HashMap<u128, DoorState>,
}

/// The state of the door on edge `(x, y, d)`.
pub open spec fn door_state_at(doors: Map<u128, DoorState>, x: u32, y: u32, d: Direction) -> DoorState {
    if doors.contains_key(edge_key(x, y, d)) {
        doors[edge_key(x, y, d)]
    } else {
        DoorState::Closed
    }
}

impl DoorStates {
    /// No door recorded: every door closed.
    pub fn new() -> (r: Self)
        ensures
            r.doors@ == Map::<u128, DoorState>::empty(),
    {
        DoorStates { doors: HashMap::new() }
    }

    /// The state of the door on edge `(x, y, d)`.
    pub fn get(&self, x: u32, y: u32, d: Direction) -> (r: DoorState)
        ensures
            r == door_state_at(self.doors@, x, y, d),
    {
        broadcast use vstd::std_specs::hash::group_hash_axioms;

        let k = edge_key_exec(x, y, d);
        match self.doors.get(&k) {
            Some(s) => *s,
            None => DoorState::Closed,
        }
    }

    /// Records `state` for the edge `(x, y, d)`; every other edge keeps its state.
    pub fn set(&mut self, x: u32, y: u32, d: Direction, state: DoorState)
        ensures
            final(self).doors@ == old(self).doors@.insert(edge_key(x, y, d), state),
            door_state_at(final(self).doors@, x, y, d) == state,
            forall|x2: u32, y2: u32, d2: Direction|
                !(x2 == x && y2 == y && d2 == d) ==> #[trigger] door_state_at(final(self).doors@, x2, y2, d2)
                    == door_state_at(old(self).doors@, x2, y2, d2),
    {
        broadcast use vstd::std_specs::hash::group_hash_axioms;

        let k = edge_key_exec(x, y, d);
        self.doors.insert(k, state);
        proof {
            assert forall|x2: u32, y2: u32, d2: Direction|
                !(x2 == x && y2 == y && d2 == d) implies #[trigger] door_state_at(self.doors@, x2, y2, d2)
                == door_state_at(old(self).doors@, x2, y2, d2) by {
                if edge_key(x2, y2, d2) == edge_key(x, y, d) {
                    lemma_edge_key_injective(x2, y2, d2, x, y, d);
                }
            }
        }
    }
}

/// The door identifiers of the current floor's locked edges, by edge key.
#[derive(Debug)]
pub struct LockedDoors {
    pub by_edge: HashMap<u128, String>,
}

/// The identifier of the locked door on edge `(x, y, d)`, if any.
pub open spec fn locked_door_at(m: Map<u128, String>, x: u32, y: u32, d: Direction) -> Option<Seq<char>> {
    if m.contains_key(edge_key(x, y, d)) {
        Some(m[edge_key(x, y, d)]@)
    } else {
        None
    }
}

impl LockedDoors {
    /// The identifier of the locked door on edge `(x, y, d)`, if any.
    pub fn get(&self, x: u32, y: u32, d: Direction) -> (r: Option<&String>)
        ensures
            r is None <==> locked_door_at(self.by_edge@, x, y, d) is None,
            r matches Some(id) ==> locked_door_at(self.by_edge@, x, y, d) == Some(id@),
    {
        broadcast use vstd::std_specs::hash::group_hash_axioms;

        let k = edge_key_exec(x, y, d);
        self.by_edge.get(&k)
    }

    /// No locked door recorded.
    pub fn new() -> (r: Self)
        ensures
            r.by_edge@ == Map::<u128, String>::empty(),
    {
        LockedDoors { by_edge: HashMap::new() }
    }

    /// How many edges are recorded.
    pub fn len(&self) -> (r: usize)
        ensures
            r == self.by_edge@.len(),
    {
        broadcast use vstd::std_specs::hash::group_hash_axioms;

        self.by_edge.len()
    }

    /// Forgets every locked edge.
    pub fn clear(&mut self)
        ensures
            final(self).by_edge@ == Map::<u128, String>::empty(),
            forall|x: u32, y: u32, d: Direction| #[trigger] locked_door_at(final(self).by_edge@, x, y, d) is None,
    {
        self.by_edge.clear();
    }

    /// Records `id` as the door on edge `(x, y, d)`, replacing what the edge
    /// had; every other edge keeps its door, and the count grows by one
    /// exactly when the edge was new.
    pub fn insert(&mut self, x: u32, y: u32, d: Direction, id: String)
        ensures
            locked_door_at(final(self).by_edge@, x, y, d) == Some(id@),
            forall|x2: u32, y2: u32, d2: Direction|
                !(x2 == x && y2 == y && d2 == d) ==> #[trigger] locked_door_at(final(self).by_edge@, x2, y2, d2)
                    == locked_door_at(old(self).by_edge@, x2, y2, d2),
            final(self).by_edge@.len() == old(self).by_edge@.len() + if locked_door_at(
                old(self).by_edge@,
                x,
                y,
                d,
            ) is None {
                1int
            } else {
                0int
            },
    {
        broadcast use vstd::std_specs::hash::group_hash_axioms;
        broadcast use vstd::set::group_set_axioms;

        let k = edge_key_exec(x, y, d);
        let ghost sid = id@;
        let ghost before = self.by_edge@;
        self.by_edge.insert(k, id);
        proof {
            assert(before.dom().finite());
            assert(self.by_edge@.dom() == before.dom().insert(k));
            assert forall|x2: u32, y2: u32, d2: Direction|
                !(x2 == x && y2 == y && d2 == d) implies #[trigger] locked_door_at(self.by_edge@, x2, y2, d2)
                == locked_door_at(before, x2, y2, d2) by {
                if edge_key(x2, y2, d2) == edge_key(x, y, d) {
                    lemma_edge_key_injective(x2, y2, d2, x, y, d);
                }
            }
        }
    }
}

/// The door on edge `(x, y, d)` as a floor's list of locked doors gives it:
/// the last entry for the edge.
pub open spec fn last_locked_door(s: Seq<((u32, u32), Direction, String)>, x: u32, y: u32, d: Direction) -> Option<Seq<char>>
    decreases s.len(),
{
    if s.len() == 0 {
        None
    } else if s.last().0 == (x, y) && s.last().1 == d {
        Some(s.last().2@)
    } else {
        last_locked_door(s.drop_last(), x, y, d)
    }
}

/// Fills the locked doors from a floor's list, forgetting what was there:
/// each edge gets the last identifier the list gives it.
pub fn populate_locked_doors(locked: &mut LockedDoors, floor_locked: &Vec<((u32, u32), Direction, String)>)
    ensures
        forall|x: u32, y: u32, d: Direction| #[trigger] locked_door_at(final(locked).by_edge@, x, y, d)
            == last_locked_door(floor_locked@, x, y, d),
{
    locked.clear();
    let mut i: usize = 0;
    while i < floor_locked.len()
        invariant
            0 <= i <= floor_locked@.len(),
            forall|x: u32, y: u32, d: Direction| #[trigger] locked_door_at(locked.by_edge@, x, y, d)
                == last_locked_door(floor_locked@.take(i as int), x, y, d),
        decreases floor_locked@.len() - i,
    {
        let ghost before = locked.by_edge@;
        let ghost pre = floor_locked@.take(i as int);
        let ghost post = floor_locked@.take(i + 1);
        assert(post.drop_last() == pre);
        let ex = floor_locked[i].0.0;
        let ey = floor_locked[i].0.1;
        let ed = floor_locked[i].1;
        let id = floor_locked[i].2.clone();
        locked.insert(ex, ey, ed, id);
        assert forall|x: u32, y: u32, d: Direction| #[trigger] locked_door_at(locked.by_edge@, x, y, d)
            == last_locked_door(post, x, y, d) by {
            assert(post.last() == floor_locked@[i as int]);
            if !(x == ex && y == ey && d == ed) {
                assert(locked_door_at(locked.by_edge@, x, y, d) == locked_door_at(before, x, y, d));
            }
        }
        i = i + 1;
    }
    assert(floor_locked@.take(floor_locked@.len() as int) == floor_locked@);
}

/// Filling the locked doors from a floor's list gives the same doors
/// whatever was recorded before: entering the same floor again restores
/// exactly its locks.
pub proof fn lemma_populate_is_idempotent(
    first: Map<u128, String>,
    second: Map<u128, String>,
    floor_locked: Seq<((u32, u32), Direction, String)>,
)
    requires
        forall|x: u32, y: u32, d: Direction| #[trigger] locked_door_at(first, x, y, d)
            == last_locked_door(floor_locked, x, y, d),
        forall|x: u32, y: u32, d: Direction| #[trigger] locked_door_at(second, x, y, d)
            == last_locked_door(floor_locked, x, y, d),
    ensures
        forall|x: u32, y: u32, d: Direction| #[trigger] locked_door_at(first, x, y, d)
            == locked_door_at(second, x, y, d),
{
}

/// Leaving the dungeon forgets the floor visit: every door closed, no
/// locked edge. A pending teleport is kept for the next entry.
pub fn clear_door_resources(doors: &mut DoorStates, locked: &mut LockedDoors)
    ensures
        final(doors).doors@ == Map::<u128, DoorState>::empty(),
        final(locked).by_edge@ == Map::<u128, String>::empty(),
{
    doors.doors.clear();
    locked.clear();
}

/// The party can step from `pos` towards `d`: a door (locked or not) must
/// be open; any other face goes by the floor's walls.
pub open spec fn can_pass(f: DungeonFloor, doors: Map<u128, DoorState>, pos: GridPosition, d: Direction) -> bool {
    match cell_walls(f, pos.x, pos.y) {
        None => false,
        Some(m) => {
            let w = face(m, d);
            if w == WallType::Door || w == WallType::LockedDoor {
                door_state_at(doors, pos.x, pos.y, d) == DoorState::Open
            } else {
                can_move_spec(f, pos.x, pos.y, d)
            }
        },
    }
}


/// Which faces let the party through: none from off the grid; solid and
/// secret walls never; a door, locked or not, exactly when it is open; an
/// open, illusory or one-way face exactly when the next cell is on the grid.
pub proof fn lemma_can_pass_rules(f: DungeonFloor, doors: Map<u128, DoorState>, pos: GridPosition, d: Direction)
    ensures
        cell_walls(f, pos.x, pos.y) is None ==> !can_pass(f, doors, pos, d),
        cell_walls(f, pos.x, pos.y) matches Some(m) ==> {
            let w = face(m, d);
            let next_on_grid = 0 <= pos.x + dir_dx(d) < f.width && 0 <= pos.y + dir_dy(d) < f.height;
            &&& (w == WallType::Solid || w == WallType::SecretWall) ==> !can_pass(f, doors, pos, d)
            &&& (w == WallType::Door || w == WallType::LockedDoor) ==> (can_pass(f, doors, pos, d)
                <==> door_state_at(doors, pos.x, pos.y, d) == DoorState::Open)
            &&& (w == WallType::Open || w == WallType::Illusory || w == WallType::OneWay) ==> (
            can_pass(f, doors, pos, d) <==> next_on_grid)
        },
{
}

/// Whether the party can step from `pos` towards `d` (see `can_pass`).
pub fn can_move_with_doors(floor: &DungeonFloor, doors: &DoorStates, pos: GridPosition, d: Direction) -> (r: bool)
    ensures
        r == can_pass(*floor, doors.doors@, pos, d),
{
    let m = match floor.walls_at(pos.x, pos.y) {
        Some(m) => m,
        None => return false,
    };
    let w = wall_towards(&m, d);
    if w == WallType::Door || w == WallType::LockedDoor {
        doors.get(pos.x, pos.y, d) == DoorState::Open
    } else {
        floor.can_move(pos.x, pos.y, d)
    }
}

/// The movement keys pressed this frame.
#[derive(Clone, Copy, Debug, PartialEq, Eq, Structural)]
pub struct MovePresses {
    pub forward: bool,
    pub backward: bool,
    pub strafe_left: bool,
    pub strafe_right: bool,
    pub turn_left: bool,
    pub turn_right: bool,
}

/// What one frame of movement input did.
#[derive(Clone, Copy, Debug, PartialEq, Eq, Structural)]
pub enum DungeonStep {
    /// Nothing: no key, a wall, or the edge of the grid.
    Stayed,
    /// The party stepped from `from` to `to`, facing `facing`.
    Moved { from: GridPosition, to: GridPosition, facing: Direction },
    /// The party turned from `from` to `to`.
    Turned { from: Direction, to: Direction },
}

/// The direction of the requested step, by priority: forward, backward,
/// strafe left, strafe right.
pub open spec fn step_direction(p: MovePresses, facing: Direction) -> Option<Direction> {
    if p.forward {
        Some(facing)
    } else if p.backward {
        Some(opposite(facing))
    } else if p.strafe_left {
        Some(left_of(facing))
    } else if p.strafe_right {
        Some(right_of(facing))
    } else {
        None
    }
}

/// The outcome of one frame of movement input: a step (when the target
/// coordinates are not negative and the party can pass), else nothing; with
/// no step requested, a turn left or right.
pub open spec fn dungeon_step(
    p: MovePresses,
    f: DungeonFloor,
    doors: Map<u128, DoorState>,
    pos: GridPosition,
    facing: Direction,
) -> (GridPosition, Direction, DungeonStep) {
    match step_direction(p, facing) {
        Some(d) => {
            let nx = (pos.x as i32) + dir_dx(d);
            let ny = (pos.y as i32) + dir_dy(d);
            if nx < 0 || ny < 0 || !can_pass(f, doors, pos, d) {
                (pos, facing, DungeonStep::Stayed)
            } else {
                let to = GridPosition { x: nx as u32, y: ny as u32 };
                (to, facing, DungeonStep::Moved { from: pos, to, facing })
            }
        },
        None => if p.turn_left {
            (pos, left_of(facing), DungeonStep::Turned { from: facing, to: left_of(facing) })
        } else if p.turn_right {
            (pos, right_of(facing), DungeonStep::Turned { from: facing, to: right_of(facing) })
        } else {
            (pos, facing, DungeonStep::Stayed)
        },
    }
}

/// A requested step never turns the party, and a step the walls or doors
/// block leaves position and facing as they were.
pub proof fn lemma_step_rules(
    p: MovePresses,
    f: DungeonFloor,
    doors: Map<u128, DoorState>,
    pos: GridPosition,
    facing: Direction,
)
    ensures
        step_direction(p, facing) is Some ==> dungeon_step(p, f, doors, pos, facing).1 == facing,
        (step_direction(p, facing) matches Some(d) && !can_pass(f, doors, pos, d)) ==> dungeon_step(
            p,
            f,
            doors,
            pos,
            facing,
        ) == (pos, facing, DungeonStep::Stayed),
{
}

/// One frame of movement input, by the grid vectors of the directions
/// (`(dx, dy)`, y growing southwards). With facing `(fx, fy)` the first
/// pressed of forward, backward, strafe left and strafe right asks for a
/// step along `(fx, fy)`, `(-fx, -fy)`, `(fy, -fx)` or `(-fy, fx)`; the step
/// is taken (without turning) exactly when the target is not negative and
/// the party can pass that way, else nothing changes. With no step asked, a
/// turn left faces `(fy, -fx)`, a turn right `(-fy, fx)`, and the party
/// stays on its cell.
pub proof fn lemma_step_geometry(
    p: MovePresses,
    f: DungeonFloor,
    doors: Map<u128, DoorState>,
    pos: GridPosition,
    facing: Direction,
)
    ensures
        ({
            let fx = dir_dx(facing);
            let fy = dir_dy(facing);
            let r = dungeon_step(p, f, doors, pos, facing);
            let moving = p.forward || p.backward || p.strafe_left || p.strafe_right;
            let vx = if p.forward { fx } else if p.backward { -fx } else if p.strafe_left { fy } else { -fy };
            let vy = if p.forward { fy } else if p.backward { -fy } else if p.strafe_left { -fx } else { fx };
            &&& moving ==> (step_direction(p, facing) matches Some(d) && dir_dx(d) == vx && dir_dy(d) == vy)
            &&& moving ==> r.1 == facing
            &&& moving ==> forall|d: Direction|
                dir_dx(d) == vx && dir_dy(d) == vy ==> {
                    let nx = (pos.x as i32) + vx;
                    let ny = (pos.y as i32) + vy;
                    if nx >= 0 && ny >= 0 && can_pass(f, doors, pos, d) {
                        &&& r.0.x == nx && r.0.y == ny
                        &&& r.2 == (DungeonStep::Moved { from: pos, to: r.0, facing })
                    } else {
                        r.0 == pos && r.2 == DungeonStep::Stayed
                    }
                }
            &&& !moving ==> step_direction(p, facing) is None && r.0 == pos
            &&& (!moving && p.turn_left) ==> dir_dx(r.1) == fy && dir_dy(r.1) == -fx && r.2 == (
                DungeonStep::Turned { from: facing, to: r.1 })
            &&& (!moving && !p.turn_left && p.turn_right) ==> dir_dx(r.1) == -fy && dir_dy(r.1)
                == fx && r.2 == (DungeonStep::Turned { from: facing, to: r.1 })
            &&& (!moving && !p.turn_left && !p.turn_right) ==> r == (pos, facing, DungeonStep::Stayed)
        }),
{
    lemma_vector_determines_direction();
}

/// Distinct directions have distinct grid vectors.
proof fn lemma_vector_determines_direction()
    ensures
        forall|a: Direction, b: Direction|
            dir_dx(a) == dir_dx(b) && dir_dy(a) == dir_dy(b) ==> a == b,
{
    assert forall|a: Direction, b: Direction|
        dir_dx(a) == dir_dx(b) && dir_dy(a) == dir_dy(b) implies a == b by {
        match a {
            Direction::North => {},
            Direction::East => {},
            Direction::South => {},
            Direction::West => {},
        }
    }
}

/// Whether the step requested by `presses` stays within 32-bit signed
/// coordinates, the condition under which `handle_dungeon_input` may be
/// called.
pub fn step_fits(presses: &MovePresses, pos: &GridPosition, facing: Direction) -> (r: bool)
    ensures
        r == (step_direction(*presses, facing) matches Some(d) ==> {
            &&& i32::MIN <= (pos.x as i32) + dir_dx(d) <= i32::MAX
            &&& i32::MIN <= (pos.y as i32) + dir_dy(d) <= i32::MAX
        }),
{
    let dir = if presses.forward {
        Some(facing)
    } else if presses.backward {
        Some(facing.reverse())
    } else if presses.strafe_left {
        Some(facing.turn_left())
    } else if presses.strafe_right {
        Some(facing.turn_right())
    } else {
        None
    };
    match dir {
        Some(d) => {
            let (dx, dy) = d.offset();
            let x: i64 = pos.x as i32 as i64 + dx as i64;
            let y: i64 = pos.y as i32 as i64 + dy as i64;
            i32::MIN as i64 <= x && x <= i32::MAX as i64 && i32::MIN as i64 <= y && y
                <= i32::MAX as i64
        },
        None => true,
    }
}

/// Applies one frame of movement input to the party's position and facing
/// (see `dungeon_step`). The step is computed in 32-bit signed coordinates,
/// which must not overflow in the direction moved.
pub fn handle_dungeon_input(
    presses: &MovePresses,
    floor: &DungeonFloor,
    doors: &DoorStates,
    pos: &mut GridPosition,
    facing: &mut Direction,
) -> (r: DungeonStep)
    requires
        step_direction(*presses, *old(facing)) matches Some(d) ==> {
            &&& i32::MIN <= (old(pos).x as i32) + dir_dx(d) <= i32::MAX
            &&& i32::MIN <= (old(pos).y as i32) + dir_dy(d) <= i32::MAX
        },
    ensures
        ({
            let s = dungeon_step(*presses, *floor, doors.doors@, *old(pos), *old(facing));
            &&& *final(pos) == s.0
            &&& *final(facing) == s.1
            &&& r == s.2
        }),
{
    let f = *facing;
    let dir = if presses.forward {
        Some(f)
    } else if presses.backward {
        Some(f.reverse())
    } else if presses.strafe_left {
        Some(f.turn_left())
    } else if presses.strafe_right {
        Some(f.turn_right())
    } else {
        None
    };
    match dir {
        Some(d) => {
            let (dx, dy) = d.offset();
            let nx: i32 = pos.x as i32 + dx;
            let ny: i32 = pos.y as i32 + dy;
            if nx < 0 || ny < 0 {
                return DungeonStep::Stayed;
            }
            if !can_move_with_doors(floor, doors, *pos, d) {
                return DungeonStep::Stayed;
            }
            let from = *pos;
            *pos = GridPosition { x: nx as u32, y: ny as u32 };
            DungeonStep::Moved { from, to: *pos, facing: f }
        },
        None => {
            if presses.turn_left {
                *facing = f.turn_left();
                DungeonStep::Turned { from: f, to: *facing }
            } else if presses.turn_right {
                *facing = f.turn_right();
                DungeonStep::Turned { from: f, to: *facing }
            } else {
                DungeonStep::Stayed
            }
        },
    }
}

/// What pressing Interact did.
#[derive(Clone, Copy, Debug, PartialEq, Eq, Structural)]
pub enum DoorOutcome {
    /// Not a door, or no key press.
    Nothing,
    /// A door was opened.
    Opened,
    /// A door was closed.
    Closed,
    /// A locked door was opened with a key the party carries.
    Unlocked,
    /// A locked door stays locked: no carried key names it.
    StillLocked,
}

/// The item is a key naming door `id`.
pub open spec fn is_key_for(it: ItemAsset, id: Seq<char>) -> bool {
    it.kind == ItemKind::KeyItem && match it.key_id {
        Some(k) => k@ == id,
        None => false,
    }
}

/// Some carried item is a key naming door `id`.
pub open spec fn carries_key(items: Seq<ItemAsset>, id: Seq<char>) -> bool {
    exists|i: int| 0 <= i < items.len() && is_key_for(#[trigger] items[i], id)
}

fn carries_key_exec(items: &Vec<ItemAsset>, id: &String) -> (r: bool)
    ensures
        r == carries_key(items@, id@),
{
    let mut i: usize = 0;
    while i < items.len()
        invariant
            0 <= i <= items@.len(),
            forall|k: int| 0 <= k < i ==> !is_key_for(#[trigger] items@[k], id@),
        decreases items@.len() - i,
    {
        let it = &items[i];
        if it.kind == ItemKind::KeyItem {
            match &it.key_id {
                Some(k) => {
                    if *k == *id {
                        return true;
                    }
                },
                None => {},
            }
        }
        i = i + 1;
    }
    false
}

/// Interact with the wall the party faces. A door toggles between open and
/// closed. A locked door opens when one of the party's carried items is a
/// key naming it (keys are kept); an edge with no locked-door record does
/// nothing. Anything else does nothing.
pub fn handle_door_interact(
    pressed: bool,
    floor: &DungeonFloor,
    pos: GridPosition,
    facing: Direction,
    locked: &LockedDoors,
    doors: &mut DoorStates,
    carried: &Vec<ItemAsset>,
) -> (r: DoorOutcome)
    requires
        pressed ==> cell_walls(*floor, pos.x, pos.y) is Some,
    ensures
        !pressed ==> r == DoorOutcome::Nothing && final(doors).doors@ == old(doors).doors@,
        pressed ==> {
            let w = face(cell_walls(*floor, pos.x, pos.y)->0, facing);
            let cur = door_state_at(old(doors).doors@, pos.x, pos.y, facing);
            let id = locked_door_at(locked.by_edge@, pos.x, pos.y, facing);
            if w == WallType::Door {
                &&& r == if cur == DoorState::Closed { DoorOutcome::Opened } else { DoorOutcome::Closed }
                &&& door_state_at(final(doors).doors@, pos.x, pos.y, facing) == if cur == DoorState::Closed {
                    DoorState::Open
                } else {
                    DoorState::Closed
                }
            } else if w == WallType::LockedDoor && id is Some && carries_key(carried@, id->0) {
                &&& r == DoorOutcome::Unlocked
                &&& door_state_at(final(doors).doors@, pos.x, pos.y, facing) == DoorState::Open
            } else {
                &&& r == if w == WallType::LockedDoor && id is Some {
                    DoorOutcome::StillLocked
                } else {
                    DoorOutcome::Nothing
                }
                &&& final(doors).doors@ == old(doors).doors@
            }
        },
        forall|x2: u32, y2: u32, d2: Direction|
            !(x2 == pos.x && y2 == pos.y && d2 == facing) ==> #[trigger] door_state_at(final(doors).doors@, x2, y2, d2)
                == door_state_at(old(doors).doors@, x2, y2, d2),
{
    if !pressed {
        return DoorOutcome::Nothing;
    }
    let m = floor.walls[pos.y as usize][pos.x as usize];
    let w = wall_towards(&m, facing);
    if w == WallType::Door {
        let cur = doors.get(pos.x, pos.y, facing);
        let new_state = if cur == DoorState::Closed { DoorState::Open } else { DoorState::Closed };
        doors.set(pos.x, pos.y, facing, new_state);
        if new_state == DoorState::Open { DoorOutcome::Opened } else { DoorOutcome::Closed }
    } else if w == WallType::LockedDoor {
        let id = match locked.get(pos.x, pos.y, facing) {
            Some(id) => id,
            None => return DoorOutcome::Nothing,
        };
        if carries_key_exec(carried, id) {
            doors.set(pos.x, pos.y, facing, DoorState::Open);
            DoorOutcome::Unlocked
        } else {
            DoorOutcome::StillLocked
        }
    } else {
        DoorOutcome::Nothing
    }
}

/// Interacting twice with a door edge (and with nothing else in between)
/// leaves it as it was.
pub proof fn lemma_toggle_twice(s: Map<u128, DoorState>, t: Map<u128, DoorState>, u: Map<u128, DoorState>, x: u32, y: u32, d: Direction)
    requires
        door_state_at(t, x, y, d) == if door_state_at(s, x, y, d) == DoorState::Closed {
            DoorState::Open
        } else {
            DoorState::Closed
        },
        door_state_at(u, x, y, d) == if door_state_at(t, x, y, d) == DoorState::Closed {
            DoorState::Open
        } else {
            DoorState::Closed
        },
    ensures
        door_state_at(u, x, y, d) == door_state_at(s, x, y, d),
{
}

/// The floor number whose assets are used for `floor_number`: floors 1 and
/// 2 exist; any other number falls back to floor 1.
pub fn floor_asset_for(floor_number: u32) -> (r: u32)
    ensures
        r == if floor_number == 1 || floor_number == 2 { floor_number } else { 1 },
{
    if floor_number == 1 || floor_number == 2 { floor_number } else { 1 }
}

} // verus!
