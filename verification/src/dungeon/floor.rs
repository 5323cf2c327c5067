//! The dungeon floor: a grid of cells, each with a wall type on each of its
//! four faces ("razor walls") and optional features (traps, teleporters,
//! spinners, anti-magic). Grid `y` grows southward: North is `(0, -1)`.

use vstd::prelude::*;

verus! {

/// A compass direction on the grid.
#[derive(Clone, Copy, Debug, PartialEq, Eq, Structural)]
pub enum Direction {
    North,
    East,
    South,
    West,
}

pub open spec fn dir_dx(d: Direction) -> int {
    match d {
        Direction::East => 1,
        Direction::West => -1,
        _ => 0,
    }
}

pub open spec fn dir_dy(d: Direction) -> int {
    match d {
        Direction::North => -1,
        Direction::South => 1,
        _ => 0,
    }
}

/// A quarter turn clockwise.
pub open spec fn right_of(d: Direction) -> Direction {
    match d {
        Direction::North => Direction::East,
        Direction::East => Direction::South,
        Direction::South => Direction::West,
        Direction::West => Direction::North,
    }
}

/// A quarter turn counter-clockwise.
pub open spec fn left_of(d: Direction) -> Direction {
    match d {
        Direction::North => Direction::West,
        Direction::West => Direction::South,
        Direction::South => Direction::East,
        Direction::East => Direction::North,
    }
}

/// The opposite direction.
pub open spec fn opposite(d: Direction) -> Direction {
    match d {
        Direction::North => Direction::South,
        Direction::South => Direction::North,
        Direction::East => Direction::West,
        Direction::West => Direction::East,
    }
}

impl Direction {
    /// The grid step `(dx, dy)` of one move in this direction.
    pub fn offset(self) -> (r: (i32, i32))
        ensures
            r.0 == dir_dx(self),
            r.1 == dir_dy(self),
    {
        match self {
            Direction::North => (0, -1),
            Direction::East => (1, 0),
            Direction::South => (0, 1),
            Direction::West => (-1, 0),
        }
    }

    pub fn turn_left(self) -> (r: Direction)
        ensures
            r == left_of(self),
    {
        match self {
            Direction::North => Direction::West,
            Direction::West => Direction::South,
            Direction::South => Direction::East,
            Direction::East => Direction::North,
        }
    }

    pub fn turn_right(self) -> (r: Direction)
        ensures
            r == right_of(self),
    {
        match self {
            Direction::North => Direction::East,
            Direction::East => Direction::South,
            Direction::South => Direction::West,
            Direction::West => Direction::North,
        }
    }

    pub fn reverse(self) -> (r: Direction)
        ensures
            r == opposite(self),
    {
        match self {
            Direction::North => Direction::South,
            Direction::South => Direction::North,
            Direction::East => Direction::West,
            Direction::West => Direction::East,
        }
    }
}

/// Turning left undoes turning right and back; two quarter turns make the
/// opposite direction; reversing twice, or four right turns, is the identity;
/// the opposite direction steps the other way.
pub proof fn lemma_direction_turns(d: Direction)
    ensures
        left_of(right_of(d)) == d,
        right_of(left_of(d)) == d,
        opposite(d) == right_of(right_of(d)),
        opposite(d) == left_of(left_of(d)),
        opposite(opposite(d)) == d,
        right_of(right_of(right_of(right_of(d)))) == d,
        dir_dx(opposite(d)) == -dir_dx(d),
        dir_dy(opposite(d)) == -dir_dy(d),
        opposite(d) != d,
{
}

/// What stands on one face of a cell.
#[derive(Clone, Copy, Debug, PartialEq, Eq, Structural)]
pub enum WallType {
    Open,
    Solid,
    Door,
    LockedDoor,
    SecretWall,
    OneWay,
    Illusory,
}

impl Default for WallType {
    fn default() -> (r: Self)
        ensures
            r == WallType::Open,
    {
        WallType::Open
    }
}

/// The four faces of a cell.
#[derive(Clone, Copy, Debug, PartialEq, Eq, Structural)]
pub struct WallMask {
    pub north: WallType,
    pub south: WallType,
    pub east: WallType,
    pub west: WallType,
}

impl Default for WallMask {
    fn default() -> (r: Self)
        ensures
            r.north == WallType::Open && r.south == WallType::Open,
            r.east == WallType::Open && r.west == WallType::Open,
    {
        WallMask { north: WallType::Open, south: WallType::Open, east: WallType::Open, west: WallType::Open }
    }
}

/// The face of `m` towards `d`.
pub open spec fn face(m: WallMask, d: Direction) -> WallType {
    match d {
        Direction::North => m.north,
        Direction::South => m.south,
        Direction::East => m.east,
        Direction::West => m.west,
    }
}

/// The face of `m` towards `d`.
pub fn wall_towards(m: &WallMask, d: Direction) -> (r: WallType)
    ensures
        r == face(*m, d),
{
    match d {
        Direction::North => m.north,
        Direction::South => m.south,
        Direction::East => m.east,
        Direction::West => m.west,
    }
}

/// A trap on a cell.
#[derive(Clone, Copy, Debug, PartialEq, Eq, Structural)]
pub enum TrapType {
    /// Damages every party member; with a target floor, drops the party there.
    Pit { damage: u32, target_floor: Option<u32> },
    /// Poisons every party member.
    Poison,
    /// Calls an encounter.
    Alarm,
}

/// Where a teleporter (or a pit to another floor) sends the party.
#[derive(Clone, Copy, Debug, PartialEq, Eq, Structural)]
pub struct TeleportTarget {
    pub floor: u32,
    pub x: u32,
    pub y: u32,
    /// The facing on arrival; `None` keeps (or, on another floor, takes the
    /// floor's entry) facing.
    pub facing: Option<Direction>,
}

/// What a cell holds besides its walls.
#[derive(Clone, Copy, Debug, PartialEq, Eq, Structural)]
pub struct CellFeatures {
    pub trap: Option<TrapType>,
    pub teleporter: Option<TeleportTarget>,
    pub spinner: bool,
    pub anti_magic_zone: bool,
}

impl Default for CellFeatures {
    fn default() -> (r: Self)
        ensures
            r.trap is None && r.teleporter is None && !r.spinner && !r.anti_magic_zone,
    {
        CellFeatures { trap: None, teleporter: None, spinner: false, anti_magic_zone: false }
    }
}

/// A logical position on the grid.
#[derive(Clone, Copy, Debug, PartialEq, Eq, Structural)]
pub struct GridPosition {
    pub x: u32,
    pub y: u32,
}

/// One dungeon floor.
#[derive(Debug)]
pub struct DungeonFloor {
    pub name: String,
    pub width: u32,
    pub height: u32,
    pub floor_number: u32,
    /// `walls[y][x]`: the faces of cell `(x, y)`.
    pub walls: Vec<Vec<WallMask>>,
    /// `features[y][x]`: the features of cell `(x, y)`.
    pub features: Vec<Vec<CellFeatures>>,
    /// Where the party arrives: `(x, y, facing)`.
    pub entry_point: (u32, u32, Direction),
    /// Name of the floor's encounter table.
    pub encounter_table: String,
    /// Locked-door edges `((x, y), direction)` and the door identifier a key must name.
    pub locked_doors: Vec<((u32, u32), Direction, String)>,
}

/// The faces of cell `(x, y)`, when the cell is on the grid.
pub open spec fn cell_walls(f: DungeonFloor, x: u32, y: u32) -> Option<WallMask> {
    if y < f.walls@.len() && x < f.walls@[y as int]@.len() {
        Some(f.walls@[y as int]@[x as int])
    } else {
        None
    }
}

/// The features of cell `(x, y)`, when the cell is on the grid.
pub open spec fn cell_features(f: DungeonFloor, x: u32, y: u32) -> Option<CellFeatures> {
    if y < f.features@.len() && x < f.features@[y as int]@.len() {
        Some(f.features@[y as int]@[x as int])
    } else {
        None
    }
}

/// A face the party can walk through: open, a door (the door state decides
/// later), an illusion, or a one-way passage from this side.
pub open spec fn passable(w: WallType) -> bool {
    w == WallType::Open || w == WallType::Door || w == WallType::Illusory || w == WallType::OneWay
}

/// The party can step from `(x, y)` towards `d`: the cell exists, its face
/// that way can be walked through, and the next cell lies on the grid.
pub open spec fn can_move_spec(f: DungeonFloor, x: u32, y: u32, d: Direction) -> bool {
    &&& cell_walls(f, x, y) is Some
    &&& passable(face(cell_walls(f, x, y)->0, d))
    &&& 0 <= x + dir_dx(d) < f.width
    &&& 0 <= y + dir_dy(d) < f.height
}

impl DungeonFloor {
    /// The faces of cell `(x, y)`, if it is on the grid.
    pub fn walls_at(&self, x: u32, y: u32) -> (r: Option<WallMask>)
        ensures
            r == cell_walls(*self, x, y),
    {
        if (y as usize) < self.walls.len() && (x as usize) < self.walls[y as usize].len() {
            Some(self.walls[y as usize][x as usize])
        } else {
            None
        }
    }

    /// The features of cell `(x, y)`, if it is on the grid.
    pub fn features_at(&self, x: u32, y: u32) -> (r: Option<CellFeatures>)
        ensures
            r == cell_features(*self, x, y),
    {
        if (y as usize) < self.features.len() && (x as usize) < self.features[y as usize].len() {
            Some(self.features[y as usize][x as usize])
        } else {
            None
        }
    }

    /// Whether the walls let the party step from `(x, y)` towards `d`.
    pub fn can_move(&self, x: u32, y: u32, d: Direction) -> (r: bool)
        ensures
            r == can_move_spec(*self, x, y, d),
    {
        let m = match self.walls_at(x, y) {
            Some(m) => m,
            None => return false,
        };
        let w = wall_towards(&m, d);
        if !(w == WallType::Open || w == WallType::Door || w == WallType::Illusory || w
            == WallType::OneWay) {
            return false;
        }
        let (dx, dy) = d.offset();
        let nx: i64 = x as i64 + dx as i64;
        let ny: i64 = y as i64 + dy as i64;
        0 <= nx && nx < self.width as i64 && 0 <= ny && ny < self.height as i64
    }
}

} // verus!
