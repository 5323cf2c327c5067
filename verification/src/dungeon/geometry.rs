//! The plan of a floor's geometry: a floor and a ceiling slab for each
//! cell, and a plate for each face that is drawn. Each cell draws its north
//! and west faces; the south face only on the bottom row and the east face
//! only on the right column, so a face shared by two cells is drawn once.

use crate::dungeon::floor::{face, Direction, DungeonFloor, WallMask, WallType};
use vstd::prelude::*;

verus! {

/// How a drawn face looks.
#[derive(Clone, Copy, Debug, PartialEq, Eq, Structural)]
pub enum WallMaterial {
    /// Solid walls, secret walls and illusions look alike.
    Solid,
    Door,
    Locked,
}

pub open spec fn material_of(w: WallType) -> Option<WallMaterial> {
    match w {
        WallType::Open | WallType::OneWay => None,
        WallType::Solid | WallType::SecretWall | WallType::Illusory => Some(WallMaterial::Solid),
        WallType::Door => Some(WallMaterial::Door),
        WallType::LockedDoor => Some(WallMaterial::Locked),
    }
}


/// Open and one-way faces are not drawn; doors are drawn as doors, locked
/// doors as locked doors, and solid walls, secret walls and illusions alike
/// as solid walls.
pub proof fn lemma_material_rules(w: WallType)
    ensures
        material_of(w) is None <==> (w == WallType::Open || w == WallType::OneWay),
        w == WallType::Door ==> material_of(w) == Some(WallMaterial::Door),
        w == WallType::LockedDoor ==> material_of(w) == Some(WallMaterial::Locked),
        (w == WallType::Solid || w == WallType::SecretWall || w == WallType::Illusory) ==> material_of(w)
            == Some(WallMaterial::Solid),
{
}

/// The look of a face; `None` for faces that are not drawn (open and one-way).
pub fn wall_material(w: WallType) -> (r: Option<WallMaterial>)
    ensures
        r == material_of(w),
{
    match w {
        WallType::Open | WallType::OneWay => None,
        WallType::Solid | WallType::SecretWall | WallType::Illusory => Some(WallMaterial::Solid),
        WallType::Door => Some(WallMaterial::Door),
        WallType::LockedDoor => Some(WallMaterial::Locked),
    }
}

/// One piece of geometry.
#[derive(Clone, Copy, Debug, PartialEq, Eq, Structural)]
pub enum PlateKind {
    Floor,
    Ceiling,
    Wall { dir: Direction, material: WallMaterial },
}

/// A piece of geometry on cell `(x, y)`.
#[derive(Clone, Copy, Debug, PartialEq, Eq, Structural)]
pub struct Plate {
    pub x: u32,
    pub y: u32,
    pub kind: PlateKind,
}

/// The wall plate for face `d` of cell `(x, y)`, if drawn.
pub open spec fn wall_plate(m: WallMask, x: u32, y: u32, d: Direction) -> Seq<Plate> {
    match material_of(face(m, d)) {
        Some(mat) => seq![Plate { x, y, kind: PlateKind::Wall { dir: d, material: mat } }],
        None => Seq::empty(),
    }
}

/// The plates of cell `(x, y)`: floor, ceiling, north, west, then south on
/// the bottom row and east on the right column.
pub open spec fn cell_plates(f: DungeonFloor, x: u32, y: u32) -> Seq<Plate> {
    let m = f.walls@[y as int]@[x as int];
    seq![Plate { x, y, kind: PlateKind::Floor }, Plate { x, y, kind: PlateKind::Ceiling }]
        + wall_plate(m, x, y, Direction::North)
        + wall_plate(m, x, y, Direction::West)
        + (if y + 1 == f.height { wall_plate(m, x, y, Direction::South) } else { Seq::empty() })
        + (if x + 1 == f.width { wall_plate(m, x, y, Direction::East) } else { Seq::empty() })
}

/// The plates of the first `n` cells of row `y`.
pub open spec fn row_plates(f: DungeonFloor, y: u32, n: nat) -> Seq<Plate>
    decreases n,
{
    if n == 0 {
        Seq::empty()
    } else {
        row_plates(f, y, (n - 1) as nat) + cell_plates(f, (n - 1) as u32, y)
    }
}

/// The plates of the first `n` rows.
pub open spec fn floor_plates(f: DungeonFloor, n: nat) -> Seq<Plate>
    decreases n,
{
    if n == 0 {
        Seq::empty()
    } else {
        floor_plates(f, (n - 1) as nat) + row_plates(f, (n - 1) as u32, f.width as nat)
    }
}

/// The floor's walls cover its grid.
pub open spec fn walls_cover(f: DungeonFloor) -> bool {
    &&& f.walls@.len() >= f.height
    &&& forall|y: int| 0 <= y < f.height ==> (#[trigger] f.walls@[y])@.len() >= f.width
}

fn push_wall(out: &mut Vec<Plate>, m: &WallMask, x: u32, y: u32, d: Direction)
    ensures
        final(out)@ == old(out)@ + wall_plate(*m, x, y, d),
{
    match wall_material(crate::dungeon::floor::wall_towards(m, d)) {
        Some(mat) => {
            out.push(Plate { x, y, kind: PlateKind::Wall { dir: d, material: mat } });
        },
        None => {},
    }
}

fn cell_plan(m: &WallMask, x: u32, y: u32, bottom: bool, right: bool) -> (r: Vec<Plate>)
    ensures
        r@ == seq![Plate { x, y, kind: PlateKind::Floor }, Plate { x, y, kind: PlateKind::Ceiling }]
            + wall_plate(*m, x, y, Direction::North) + wall_plate(*m, x, y, Direction::West) + (if bottom {
            wall_plate(*m, x, y, Direction::South)
        } else {
            Seq::empty()
        }) + (if right { wall_plate(*m, x, y, Direction::East) } else { Seq::empty() }),
{
    let mut out: Vec<Plate> = Vec::new();
    out.push(Plate { x, y, kind: PlateKind::Floor });
    out.push(Plate { x, y, kind: PlateKind::Ceiling });
    let ghost s0 = out@;
    push_wall(&mut out, m, x, y, Direction::North);
    let ghost s1 = out@;
    push_wall(&mut out, m, x, y, Direction::West);
    let ghost s2 = out@;
    if bottom {
        push_wall(&mut out, m, x, y, Direction::South);
    }
    let ghost s3 = out@;
    if right {
        push_wall(&mut out, m, x, y, Direction::East);
    }
    proof {
        assert(s0 =~= seq![Plate { x, y, kind: PlateKind::Floor }, Plate { x, y, kind: PlateKind::Ceiling }]);
    }
    out
}

fn push_cell(out: &mut Vec<Plate>, floor: &DungeonFloor, x: u32, y: u32)
    requires
        walls_cover(*floor),
        x < floor.width,
        y < floor.height,
    ensures
        final(out)@ == old(out)@ + cell_plates(*floor, x, y),
{
    let m = floor.walls[y as usize][x as usize];
    let mut c = cell_plan(&m, x, y, y == floor.height - 1, x == floor.width - 1);
    proof {
        assert(m == floor.walls@[y as int]@[x as int]);
        assert(c@ == cell_plates(*floor, x, y));
    }
    out.append(&mut c);
}

/// The geometry plan of the floor, row by row from the top, each row from
/// the left (see the module description for which faces are drawn).
pub fn dungeon_geometry_plan(floor: &DungeonFloor) -> (r: Vec<Plate>)
    requires
        walls_cover(*floor),
    ensures
        r@ == floor_plates(*floor, floor.height as nat),
{
    let mut out: Vec<Plate> = Vec::new();
    let mut y: u32 = 0;
    while y < floor.height
        invariant
            walls_cover(*floor),
            0 <= y <= floor.height,
            out@ == floor_plates(*floor, y as nat),
        decreases floor.height - y,
    {
        let ghost before_row = out@;
        let mut x: u32 = 0;
        while x < floor.width
            invariant
                walls_cover(*floor),
                0 <= x <= floor.width,
                y < floor.height,
                out@ == before_row + row_plates(*floor, y, x as nat),
            decreases floor.width - x,
        {
            push_cell(&mut out, floor, x, y);
            proof {
                assert(row_plates(*floor, y, (x + 1) as nat) == row_plates(*floor, y, x as nat) + cell_plates(*floor, x, y));
                assert(out@ =~= before_row + row_plates(*floor, y, (x + 1) as nat));
            }
            x = x + 1;
        }
        y = y + 1;
    }
    out
}

/// 1 when a face of this type is drawn, else 0.
pub open spec fn drawn(w: WallType) -> int {
    if material_of(w) is Some { 1 } else { 0 }
}

/// The number of drawn faces towards `d` among the first `n` cells of row `y`.
pub open spec fn faces_in_row(f: DungeonFloor, y: u32, n: nat, d: Direction) -> int
    decreases n,
{
    if n == 0 {
        0
    } else {
        faces_in_row(f, y, (n - 1) as nat, d) + drawn(face(f.walls@[y as int]@[n - 1], d))
    }
}

/// The number of drawn faces towards `d` over all cells of the first `rows` rows.
pub open spec fn faces_in_rows(f: DungeonFloor, rows: nat, d: Direction) -> int
    decreases rows,
{
    if rows == 0 {
        0
    } else {
        faces_in_rows(f, (rows - 1) as nat, d) + faces_in_row(f, (rows - 1) as u32, f.width as nat, d)
    }
}

/// The number of drawn faces towards `d` among the first `rows` cells of column `x`.
pub open spec fn faces_in_column(f: DungeonFloor, x: u32, rows: nat, d: Direction) -> int
    decreases rows,
{
    if rows == 0 {
        0
    } else {
        faces_in_column(f, x, (rows - 1) as nat, d) + drawn(face(f.walls@[rows - 1]@[x as int], d))
    }
}

/// The number of plates of any floor: a floor and a ceiling slab per cell,
/// one plate per drawn north face and per drawn west face, one per drawn
/// south face on the bottom row and one per drawn east face on the right
/// column. A face is drawn unless it is open or one-way.
pub proof fn lemma_floor_plate_count(f: DungeonFloor)
    requires
        walls_cover(f),
    ensures
        floor_plates(f, f.height as nat).len() == 2 * f.width * f.height
            + faces_in_rows(f, f.height as nat, Direction::North)
            + faces_in_rows(f, f.height as nat, Direction::West)
            + (if f.height > 0 { faces_in_row(f, (f.height - 1) as u32, f.width as nat, Direction::South) } else { 0 })
            + (if f.width > 0 { faces_in_column(f, (f.width - 1) as u32, f.height as nat, Direction::East) } else { 0 }),
{
    lemma_rows_plate_count(f, f.height as nat);
}

proof fn lemma_wall_plate_len(m: WallMask, x: u32, y: u32, d: Direction)
    ensures
        wall_plate(m, x, y, d).len() == drawn(face(m, d)),
{
}

proof fn lemma_rows_plate_count(f: DungeonFloor, rows: nat)
    requires
        walls_cover(f),
        rows <= f.height,
    ensures
        floor_plates(f, rows).len() == 2 * f.width * rows
            + faces_in_rows(f, rows, Direction::North)
            + faces_in_rows(f, rows, Direction::West)
            + (if rows == f.height && rows > 0 { faces_in_row(f, (rows - 1) as u32, f.width as nat, Direction::South) } else { 0 })
            + (if f.width > 0 { faces_in_column(f, (f.width - 1) as u32, rows, Direction::East) } else { 0 }),
    decreases rows,
{
    let w = f.width as int;
    if rows > 0 {
        let r1 = (rows - 1) as nat;
        lemma_rows_plate_count(f, r1);
        lemma_row_plate_count(f, r1 as u32, f.width as nat);
        assert(floor_plates(f, rows) == floor_plates(f, r1) + row_plates(f, r1 as u32, f.width as nat));
        assert(2 * w * r1 + 2 * w == 2 * w * rows) by (nonlinear_arith)
            requires
                rows == r1 + 1,
        ;
    } else {
        assert(2 * w * rows == 0) by (nonlinear_arith)
            requires
                rows == 0,
        ;
    }
}

proof fn lemma_row_plate_count(f: DungeonFloor, y: u32, n: nat)
    requires
        walls_cover(f),
        y < f.height,
        n <= f.width,
    ensures
        row_plates(f, y, n).len() == 2 * n
            + faces_in_row(f, y, n, Direction::North)
            + faces_in_row(f, y, n, Direction::West)
            + (if y + 1 == f.height { faces_in_row(f, y, n, Direction::South) } else { 0 })
            + (if n == f.width && n > 0 { drawn(face(f.walls@[y as int]@[n - 1], Direction::East)) } else { 0 }),
    decreases n,
{
    if n > 0 {
        lemma_row_plate_count(f, y, (n - 1) as nat);
        let x = (n - 1) as u32;
        let m = f.walls@[y as int]@[x as int];
        lemma_wall_plate_len(m, x, y, Direction::North);
        lemma_wall_plate_len(m, x, y, Direction::West);
        lemma_wall_plate_len(m, x, y, Direction::South);
        lemma_wall_plate_len(m, x, y, Direction::East);
        assert(cell_plates(f, x, y).len() == 2 + drawn(face(m, Direction::North)) + drawn(face(m, Direction::West))
            + (if y + 1 == f.height { drawn(face(m, Direction::South)) } else { 0 })
            + (if x + 1 == f.width { drawn(face(m, Direction::East)) } else { 0 }));
    }
}

/// A floor whose faces are all open is drawn with a floor and a ceiling slab
/// per cell and nothing else.
pub proof fn lemma_open_floor_plates(f: DungeonFloor, rows: nat)
    requires
        walls_cover(f),
        rows <= f.height,
        forall|y: int, x: int|
            0 <= y < f.height && 0 <= x < f.width ==> #[trigger] f.walls@[y]@[x] == (WallMask {
                north: WallType::Open,
                south: WallType::Open,
                east: WallType::Open,
                west: WallType::Open,
            }),
    ensures
        floor_plates(f, rows).len() == 2 * f.width * rows,
    decreases rows,
{
    if rows > 0 {
        let r1 = (rows - 1) as nat;
        lemma_open_floor_plates(f, r1);
        lemma_open_row(f, r1 as u32, f.width as nat);
        assert(floor_plates(f, rows) == floor_plates(f, r1) + row_plates(f, r1 as u32, f.width as nat));
        let w = f.width as int;
        assert(2 * w * r1 + 2 * w == 2 * w * rows) by (nonlinear_arith)
            requires
                rows == r1 + 1,
        ;
        assert(floor_plates(f, r1).len() == 2 * w * r1);
        assert(row_plates(f, r1 as u32, f.width as nat).len() == 2 * w);
        assert(floor_plates(f, rows).len() == 2 * w * rows);
    } else {
        let w = f.width as int;
        assert(2 * w * rows == 0) by (nonlinear_arith)
            requires
                rows == 0,
        ;
    }
}

proof fn lemma_open_row(f: DungeonFloor, y: u32, n: nat)
    requires
        walls_cover(f),
        y < f.height,
        n <= f.width,
        forall|yy: int, x: int|
            0 <= yy < f.height && 0 <= x < f.width ==> #[trigger] f.walls@[yy]@[x] == (WallMask {
                north: WallType::Open,
                south: WallType::Open,
                east: WallType::Open,
                west: WallType::Open,
            }),
    ensures
        row_plates(f, y, n).len() == 2 * n,
    decreases n,
{
    if n > 0 {
        lemma_open_row(f, y, (n - 1) as nat);
        let x = (n - 1) as u32;
        assert(f.walls@[y as int]@[x as int].north == WallType::Open);
        assert(cell_plates(f, x, y).len() == 2);
    }
}

/// A floor whose faces are all solid is drawn with four plates per cell
/// (floor, ceiling, north, west) plus a south plate per bottom-row cell and
/// an east plate per right-column cell.
pub proof fn lemma_walled_floor_plates(f: DungeonFloor, rows: nat)
    requires
        walls_cover(f),
        rows <= f.height,
        forall|y: int, x: int|
            0 <= y < f.height && 0 <= x < f.width ==> #[trigger] f.walls@[y]@[x] == (WallMask {
                north: WallType::Solid,
                south: WallType::Solid,
                east: WallType::Solid,
                west: WallType::Solid,
            }),
    ensures
        floor_plates(f, rows).len() == 4 * f.width * rows + (if f.width > 0 { rows } else { 0 }) + (
        if rows == f.height && rows > 0 { f.width as int } else { 0 }),
    decreases rows,
{
    if rows > 0 {
        let r1 = (rows - 1) as nat;
        lemma_walled_floor_plates(f, r1);
        lemma_walled_row(f, r1 as u32, f.width as nat);
        assert(floor_plates(f, rows) == floor_plates(f, r1) + row_plates(f, r1 as u32, f.width as nat));
        let w = f.width as int;
        assert(4 * w * r1 + 4 * w == 4 * w * rows) by (nonlinear_arith)
            requires
                rows == r1 + 1,
        ;
    } else {
        let w = f.width as int;
        assert(4 * w * rows == 0) by (nonlinear_arith)
            requires
                rows == 0,
        ;
    }
}

proof fn lemma_walled_row(f: DungeonFloor, y: u32, n: nat)
    requires
        walls_cover(f),
        y < f.height,
        n <= f.width,
        forall|yy: int, x: int|
            0 <= yy < f.height && 0 <= x < f.width ==> #[trigger] f.walls@[yy]@[x] == (WallMask {
                north: WallType::Solid,
                south: WallType::Solid,
                east: WallType::Solid,
                west: WallType::Solid,
            }),
    ensures
        row_plates(f, y, n).len() == 4 * n + (if y + 1 == f.height { n as int } else { 0 }) + (
        if n == f.width && n > 0 { 1int } else { 0 }),
    decreases n,
{
    if n > 0 {
        lemma_walled_row(f, y, (n - 1) as nat);
        let x = (n - 1) as u32;
        assert(f.walls@[y as int]@[x as int].north == WallType::Solid);
        assert(cell_plates(f, x, y).len() == 4 + (if y + 1 == f.height { 1int } else { 0 }) + (
        if x + 1 == f.width { 1int } else { 0 }));
    }
}

} // verus!
