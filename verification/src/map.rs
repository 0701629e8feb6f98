//! The dungeon map: tiles, what the player has seen, what blocks movement,
//! and what stands on each tile.

use crate::positions::{Direction, MapPosition, Point};
use crate::rect::Rect;
use crate::rng::{new_rng, range, roll_dice};
use vstd::prelude::*;

verus! {

pub const MAP_WIDTH: i32 = 120;

pub const MAP_HEIGHT: i32 = 60;

#[derive(PartialEq, Eq, Copy, Clone, Debug, Structural)]
pub enum WallType {
    /// -
    Vertical,
    /// |
    Horizontal,
    TopLeftCorner,
    TopRightCorner,
    BottomLeftCorner,
    BottomRightCorner,
    TeeDown,
    TeeUp,
    TeeLeft,
    TeeRight,
    Cross,
    Pilar,
}

#[derive(PartialEq, Eq, Copy, Clone, Debug, Structural)]
pub enum TileType {
    Stone,
    Wall(WallType),
    Floor,
}

/// Walls and stone are solid: they block movement and sight.
pub open spec fn is_solid_tile(t: TileType) -> bool {
    t is Wall || t is Stone
}

/// The index of `(x, y)` in row-major order.
pub open spec fn grid_idx(w: int, x: int, y: int) -> int {
    y * w + x
}

pub open spec fn grid_in_bounds(w: int, h: int, x: int, y: int) -> bool {
    0 <= x < w && 0 <= y < h
}

/// Whether `(x, y)` is solid in the grid `tiles` of width `w` and height
/// `h`; outside the map counts as solid.
pub open spec fn solid_at(tiles: Seq<TileType>, w: int, h: int, x: int, y: int) -> bool {
    !grid_in_bounds(w, h, x, y) || is_solid_tile(tiles[grid_idx(w, x, y)])
}

/// Two grids agree on which tiles are solid.
pub open spec fn same_solidity(a: Seq<TileType>, b: Seq<TileType>, w: int, h: int) -> bool {
    forall|x: int, y: int|
        grid_in_bounds(w, h, x, y) ==> is_solid_tile(#[trigger] a[grid_idx(w, x, y)])
            == is_solid_tile(b[grid_idx(w, x, y)])
}

/// A cell of the grid lies inside it.
pub proof fn lemma_idx_in_range(w: int, h: int, x: int, y: int)
    requires
        grid_in_bounds(w, h, x, y),
    ensures
        0 <= grid_idx(w, x, y) < w * h,
{
    assert(0 <= y * w) by (nonlinear_arith)
        requires
            0 <= y,
            0 < w,
    ;
    assert(y * w + x < w * h) by (nonlinear_arith)
        requires
            0 <= x < w,
            0 <= y < h,
    ;
}

/// Different cells have different indexes.
pub proof fn lemma_idx_unique(w: int, h: int, x1: int, y1: int, x2: int, y2: int)
    requires
        grid_in_bounds(w, h, x1, y1),
        grid_in_bounds(w, h, x2, y2),
        grid_idx(w, x1, y1) == grid_idx(w, x2, y2),
    ensures
        x1 == x2 && y1 == y2,
{
    vstd::arithmetic::div_mod::lemma_fundamental_div_mod_converse(grid_idx(w, x1, y1), w, y1, x1);
    vstd::arithmetic::div_mod::lemma_fundamental_div_mod_converse(grid_idx(w, x2, y2), w, y2, x2);
}

/// The cell of an index.
pub proof fn lemma_idx_of_index(w: int, h: int, i: int)
    requires
        0 < w,
        0 <= i < w * h,
    ensures
        grid_in_bounds(w, h, i % w, i / w),
        grid_idx(w, i % w, i / w) == i,
{
    vstd::arithmetic::div_mod::lemma_fundamental_div_mod(i, w);
    assert(0 <= i / w) by {
        vstd::arithmetic::div_mod::lemma_div_pos_is_pos(i, w);
    }
    let q = i / w;
    let r = i % w;
    assert(q < h) by (nonlinear_arith)
        requires
            i == w * q + r,
            0 <= r < w,
            i < w * h,
            0 < w,
    ;
    assert(w * (i / w) == (i / w) * w) by (nonlinear_arith);
}

/// Two grids that agree on solidity agree on `solid_at` everywhere.
pub proof fn lemma_same_solidity_at(a: Seq<TileType>, b: Seq<TileType>, w: int, h: int, x: int, y: int)
    requires
        same_solidity(a, b, w, h),
    ensures
        solid_at(a, w, h, x, y) == solid_at(b, w, h, x, y),
{
    if grid_in_bounds(w, h, x, y) {
        assert(is_solid_tile(a[grid_idx(w, x, y)]) == is_solid_tile(b[grid_idx(w, x, y)]));
    }
}

/// The eight cells around `(x, y)`, clockwise from the top left.
pub open spec fn around(x: int, y: int) -> Seq<(int, int)> {
    seq![
        (x - 1, y - 1),
        (x, y - 1),
        (x + 1, y - 1),
        (x + 1, y),
        (x + 1, y + 1),
        (x, y + 1),
        (x - 1, y + 1),
        (x - 1, y),
    ]
}

/// How many of the cells `pts` are open (not solid).
pub open spec fn count_open(tiles: Seq<TileType>, w: int, h: int, pts: Seq<(int, int)>) -> int
    decreases pts.len(),
{
    if pts.len() == 0 {
        0
    } else {
        count_open(tiles, w, h, pts.drop_last()) + if !solid_at(
            tiles,
            w,
            h,
            pts.last().0,
            pts.last().1,
        ) {
            1int
        } else {
            0int
        }
    }
}

/// How many of the eight cells around `(x, y)` are open.
pub open spec fn open_around(tiles: Seq<TileType>, w: int, h: int, x: int, y: int) -> int {
    count_open(tiles, w, h, around(x, y))
}

/// Whether the wall at `(x, y)` continues in the direction `(dx, dy)`: the
/// next cell is solid and the wall there borders on an open cell.
pub open spec fn continues(tiles: Seq<TileType>, w: int, h: int, x: int, y: int, dx: int, dy: int) -> bool {
    &&& solid_at(tiles, w, h, x + dx, y + dy)
    &&& if dx != 0 {
        !solid_at(tiles, w, h, x + dx, y - 1) || !solid_at(tiles, w, h, x + dx, y) || !solid_at(
            tiles,
            w,
            h,
            x + dx,
            y + 1,
        ) || !solid_at(tiles, w, h, x, y - 1) || !solid_at(tiles, w, h, x, y + 1)
    } else {
        !solid_at(tiles, w, h, x - 1, y + dy) || !solid_at(tiles, w, h, x, y + dy) || !solid_at(
            tiles,
            w,
            h,
            x + 1,
            y + dy,
        ) || !solid_at(tiles, w, h, x - 1, y) || !solid_at(tiles, w, h, x + 1, y)
    }
}

/// The directions in which the wall at `(x, y)` continues: 1 for left, 2
/// for right, 4 for up, 8 for down.
pub open spec fn wall_code(tiles: Seq<TileType>, w: int, h: int, x: int, y: int) -> int {
    (if continues(tiles, w, h, x, y, -1, 0) {
        1int
    } else {
        0int
    }) + (if continues(tiles, w, h, x, y, 1, 0) {
        2int
    } else {
        0int
    }) + (if continues(tiles, w, h, x, y, 0, -1) {
        4int
    } else {
        0int
    }) + (if continues(tiles, w, h, x, y, 0, 1) {
        8int
    } else {
        0int
    })
}

/// The shape of a wall that continues in the directions `code`.
pub open spec fn wall_type_of(code: int) -> WallType {
    if code == 0 {
        WallType::Pilar
    } else if code == 1 || code == 2 || code == 3 {
        WallType::Horizontal
    } else if code == 4 || code == 8 || code == 12 {
        WallType::Vertical
    } else if code == 5 {
        WallType::BottomRightCorner
    } else if code == 6 {
        WallType::BottomLeftCorner
    } else if code == 7 {
        WallType::TeeUp
    } else if code == 9 {
        WallType::TopRightCorner
    } else if code == 10 {
        WallType::TopLeftCorner
    } else if code == 11 {
        WallType::TeeDown
    } else if code == 13 {
        WallType::TeeLeft
    } else if code == 14 {
        WallType::TeeRight
    } else {
        WallType::Cross
    }
}

/// The directions in which the arms of a wall shape reach as it is drawn:
/// 1 for left, 2 for right, 4 for up, 8 for down. The bottom-right corner
/// '┘' reaches left and up, the tee '┤' left, up and down, a pillar
/// nowhere.
pub open spec fn wall_arms(w: WallType) -> int {
    match w {
        WallType::Vertical => (4 + 8) as int,
        WallType::Horizontal => (1 + 2) as int,
        WallType::TopLeftCorner => (2 + 8) as int,
        WallType::TopRightCorner => (1 + 8) as int,
        WallType::BottomLeftCorner => (2 + 4) as int,
        WallType::BottomRightCorner => (1 + 4) as int,
        WallType::TeeDown => (1 + 2 + 8) as int,
        WallType::TeeUp => (1 + 2 + 4) as int,
        WallType::TeeLeft => (1 + 4 + 8) as int,
        WallType::TeeRight => (2 + 4 + 8) as int,
        WallType::Cross => (1 + 2 + 4 + 8) as int,
        WallType::Pilar => (0) as int,
    }
}

/// A wall takes the shape whose arms reach exactly the directions it
/// continues in (a wall that continues left and up is the corner '┘'); a
/// wall that continues one way only is drawn straight through, and one that
/// continues nowhere is a pillar.
pub proof fn lemma_wall_shape_has_its_arms(code: int)
    requires
        0 <= code < 16,
    ensures
        code != 1 && code != 2 && code != 4 && code != 8 ==> wall_arms(wall_type_of(code)) == code,
        code == 1 || code == 2 ==> wall_arms(wall_type_of(code)) == 1 + 2,
        code == 4 || code == 8 ==> wall_arms(wall_type_of(code)) == 4 + 8,
{
}

/// The first pass of `fix_walls`: a solid cell with no open neighbour
/// becomes stone, one with only open neighbours becomes a pillar.
pub open spec fn first_pass_tile(tiles: Seq<TileType>, w: int, h: int, x: int, y: int) -> TileType {
    let t = tiles[grid_idx(w, x, y)];
    if solid_at(tiles, w, h, x, y) {
        let c = open_around(tiles, w, h, x, y);
        if c == 0 {
            TileType::Stone
        } else if c == 8 {
            TileType::Wall(WallType::Pilar)
        } else {
            t
        }
    } else {
        t
    }
}

/// The tile at `(x, y)` after `fix_walls`: every wall takes the shape given
/// by the directions it continues in.
pub open spec fn fixed_tile(tiles: Seq<TileType>, w: int, h: int, x: int, y: int) -> TileType {
    match first_pass_tile(tiles, w, h, x, y) {
        TileType::Wall(_) => TileType::Wall(wall_type_of(wall_code(tiles, w, h, x, y))),
        t => t,
    }
}

/// Open counts agree between grids that agree on solidity.
pub proof fn lemma_same_solidity_count(
    a: Seq<TileType>,
    b: Seq<TileType>,
    w: int,
    h: int,
    pts: Seq<(int, int)>,
)
    requires
        same_solidity(a, b, w, h),
    ensures
        count_open(a, w, h, pts) == count_open(b, w, h, pts),
    decreases pts.len(),
{
    if pts.len() > 0 {
        lemma_same_solidity_count(a, b, w, h, pts.drop_last());
        lemma_same_solidity_at(a, b, w, h, pts.last().0, pts.last().1);
    }
}

/// Wall codes agree between grids that agree on solidity.
pub proof fn lemma_same_solidity_code(a: Seq<TileType>, b: Seq<TileType>, w: int, h: int, x: int, y: int)
    requires
        same_solidity(a, b, w, h),
    ensures
        wall_code(a, w, h, x, y) == wall_code(b, w, h, x, y),
        open_around(a, w, h, x, y) == open_around(b, w, h, x, y),
{
    lemma_same_solidity_count(a, b, w, h, around(x, y));
    lemma_same_solidity_at(a, b, w, h, x - 1, y);
    lemma_same_solidity_at(a, b, w, h, x + 1, y);
    lemma_same_solidity_at(a, b, w, h, x, y - 1);
    lemma_same_solidity_at(a, b, w, h, x, y + 1);
    lemma_same_solidity_at(a, b, w, h, x, y);
    lemma_same_solidity_at(a, b, w, h, x - 1, y - 1);
    lemma_same_solidity_at(a, b, w, h, x - 1, y + 1);
    lemma_same_solidity_at(a, b, w, h, x + 1, y - 1);
    lemma_same_solidity_at(a, b, w, h, x + 1, y + 1);
    assert(solid_at(a, w, h, x - 1, y) == solid_at(b, w, h, x - 1, y));
    assert(solid_at(a, w, h, x + 1, y) == solid_at(b, w, h, x + 1, y));
    assert(solid_at(a, w, h, x, y - 1) == solid_at(b, w, h, x, y - 1));
    assert(solid_at(a, w, h, x, y + 1) == solid_at(b, w, h, x, y + 1));
    assert(solid_at(a, w, h, x, y) == solid_at(b, w, h, x, y));
    assert(solid_at(a, w, h, x - 1, y - 1) == solid_at(b, w, h, x - 1, y - 1));
    assert(solid_at(a, w, h, x - 1, y + 1) == solid_at(b, w, h, x - 1, y + 1));
    assert(solid_at(a, w, h, x + 1, y - 1) == solid_at(b, w, h, x + 1, y - 1));
    assert(solid_at(a, w, h, x + 1, y + 1) == solid_at(b, w, h, x + 1, y + 1));
}

/// The tiles that `fix_walls` writes keep the solidity of the cells.
pub proof fn lemma_fixed_keeps_solidity(tiles: Seq<TileType>, w: int, h: int, x: int, y: int)
    requires
        grid_in_bounds(w, h, x, y),
    ensures
        is_solid_tile(first_pass_tile(tiles, w, h, x, y)) == is_solid_tile(
            tiles[grid_idx(w, x, y)],
        ),
        is_solid_tile(fixed_tile(tiles, w, h, x, y)) == is_solid_tile(tiles[grid_idx(w, x, y)]),
{
}

/// The grid after `fix_walls`.
pub open spec fn fix_walls_grid(tiles: Seq<TileType>, w: int, h: int) -> Seq<TileType> {
    Seq::new((w * h) as nat, |i: int| fixed_tile(tiles, w, h, i % w, i / w))
}

/// Whether `(x, y)` lies inside the room (its walls excluded).
pub open spec fn in_room_interior(room: Rect, x: int, y: int) -> bool {
    room.x1 < x <= room.x2 && room.y1 < y <= room.y2
}

/// The room, walls included, lies on a map of width `w` and height `h`,
/// away from its last column and row.
pub open spec fn room_on_map(room: Rect, w: int, h: int) -> bool {
    0 <= room.x1 && room.x1 <= room.x2 && room.x2 <= w - 2 && 0 <= room.y1 && room.y1 <= room.y2
        && room.y2 <= h - 2
}

/// Every tile inside the room is floor.
pub open spec fn room_floored(tiles: Seq<TileType>, w: int, room: Rect) -> bool {
    forall|x: int, y: int|
        in_room_interior(room, x, y) ==> #[trigger] tiles[grid_idx(w, x, y)] == TileType::Floor
}

/// Tiles that were floor are still floor.
pub open spec fn floors_kept(old_tiles: Seq<TileType>, new_tiles: Seq<TileType>) -> bool {
    &&& new_tiles.len() == old_tiles.len()
    &&& forall|i: int|
        0 <= i < old_tiles.len() && old_tiles[i] == TileType::Floor ==> #[trigger] new_tiles[i]
            == TileType::Floor
}

/// No two rooms overlap.
pub open spec fn rooms_disjoint(rooms: Seq<Rect>) -> bool {
    forall|i: int, j: int|
        #![trigger rooms[i], rooms[j]]
        0 <= i < rooms.len() && 0 <= j < rooms.len() && i != j ==> !rooms[i].spec_intersect(
            &rooms[j],
        )
}

/// Whether `v` lies between `a` and `b`, in either order.
pub open spec fn between(a: int, b: int, v: int) -> bool {
    (a <= v <= b) || (b <= v <= a)
}

/// The grid with the inside of the room turned into floor.
pub open spec fn dig_room(tiles: Seq<TileType>, w: int, room: Rect) -> Seq<TileType> {
    Seq::new(
        tiles.len(),
        |i: int|
            if in_room_interior(room, i % w, i / w) {
                TileType::Floor
            } else {
                tiles[i]
            },
    )
}

/// The grid with row `y` turned into floor from column `x1` to column `x2`,
/// all but the map's first tile.
pub open spec fn dig_row(tiles: Seq<TileType>, w: int, x1: int, x2: int, y: int) -> Seq<TileType> {
    Seq::new(
        tiles.len(),
        |i: int|
            if i > 0 && i / w == y && between(x1, x2, i % w) {
                TileType::Floor
            } else {
                tiles[i]
            },
    )
}

/// The grid with column `x` turned into floor from row `y1` to row `y2`,
/// all but the map's first tile.
pub open spec fn dig_column(tiles: Seq<TileType>, w: int, y1: int, y2: int, x: int) -> Seq<
    TileType,
> {
    Seq::new(
        tiles.len(),
        |i: int|
            if i > 0 && i % w == x && between(y1, y2, i / w) {
                TileType::Floor
            } else {
                tiles[i]
            },
    )
}

/// The corridor that joins the centers `from` and `to` of two rooms:
/// along the row of `from` and then the column of `to` when
/// `horizontal_first`, else along the column of `from` and then the row of
/// `to`.
pub open spec fn dig_corridor(
    tiles: Seq<TileType>,
    w: int,
    from: Point,
    to: Point,
    horizontal_first: bool,
) -> Seq<TileType> {
    if horizontal_first {
        dig_column(
            dig_row(tiles, w, from.x as int, to.x as int, from.y as int),
            w,
            from.y as int,
            to.y as int,
            to.x as int,
        )
    } else {
        dig_row(
            dig_column(tiles, w, from.y as int, to.y as int, from.x as int),
            w,
            from.x as int,
            to.x as int,
            to.y as int,
        )
    }
}

/// A path of floor tiles joins `from` and `to`: along a row and a column,
/// turning at one corner.
pub open spec fn floor_path(tiles: Seq<TileType>, w: int, from: Point, to: Point) -> bool {
    let row_first = forall|x: int|
        between(from.x as int, to.x as int, x) ==> #[trigger] tiles[grid_idx(w, x, from.y as int)]
            == TileType::Floor;
    let then_column = forall|y: int|
        between(from.y as int, to.y as int, y) ==> #[trigger] tiles[grid_idx(w, to.x as int, y)]
            == TileType::Floor;
    let column_first = forall|y: int|
        between(from.y as int, to.y as int, y) ==> #[trigger] tiles[grid_idx(w, from.x as int, y)]
            == TileType::Floor;
    let then_row = forall|x: int|
        between(from.x as int, to.x as int, x) ==> #[trigger] tiles[grid_idx(w, x, to.y as int)]
            == TileType::Floor;
    (row_first && then_column) || (column_first && then_row)
}

/// A room of at least two tiles each way, lying on the map away from its
/// last column and row.
pub open spec fn room_fits(room: Rect, w: int, h: int) -> bool {
    &&& room_on_map(room, w, h)
    &&& room.x1 + 2 <= room.x2
    &&& room.y1 + 2 <= room.y2
}

/// The cell of an index in the grid's row-major order.
pub proof fn lemma_cell_of_idx(w: int, x: int, y: int)
    requires
        0 <= x < w,
        0 <= y,
    ensures
        grid_idx(w, x, y) % w == x,
        grid_idx(w, x, y) / w == y,
{
    vstd::arithmetic::div_mod::lemma_fundamental_div_mod_converse(grid_idx(w, x, y), w, y, x);
}

/// An index other than that of `(x, y)` lies in another cell.
pub proof fn lemma_other_cell(w: int, i: int, x: int, y: int)
    requires
        0 < w,
        0 <= i,
        i != grid_idx(w, x, y),
    ensures
        !(i % w == x && i / w == y),
{
    vstd::arithmetic::div_mod::lemma_fundamental_div_mod(i, w);
    if i % w == x && i / w == y {
        assert(w * (i / w) == y * w) by (nonlinear_arith)
            requires
                i / w == y,
        ;
    }
}

/// Digging keeps every floor.
pub proof fn lemma_digs_keep_floors(tiles: Seq<TileType>, w: int, room: Rect, a: int, b: int, c: int)
    ensures
        floors_kept(tiles, dig_room(tiles, w, room)),
        floors_kept(tiles, dig_row(tiles, w, a, b, c)),
        floors_kept(tiles, dig_column(tiles, w, a, b, c)),
{
}

/// Floors kept twice are floors kept.
pub proof fn lemma_floors_kept_trans(a: Seq<TileType>, b: Seq<TileType>, c: Seq<TileType>)
    requires
        floors_kept(a, b),
        floors_kept(b, c),
    ensures
        floors_kept(a, c),
{
    assert forall|i: int| 0 <= i < a.len() && a[i] == TileType::Floor implies #[trigger] c[i]
        == TileType::Floor by {
        assert(b[i] == TileType::Floor);
    }
}

/// The tile at a cell of the grid after `fix_walls`.
pub proof fn lemma_fix_walls_grid_at(tiles: Seq<TileType>, w: int, h: int, x: int, y: int)
    requires
        grid_in_bounds(w, h, x, y),
    ensures
        fix_walls_grid(tiles, w, h).len() == w * h,
        fix_walls_grid(tiles, w, h)[grid_idx(w, x, y)] == fixed_tile(tiles, w, h, x, y),
{
    lemma_idx_in_range(w, h, x, y);
    vstd::arithmetic::div_mod::lemma_fundamental_div_mod_converse(grid_idx(w, x, y), w, y, x);
}

/// The walls that `fix_walls` shapes keep their shape when it runs again,
/// and it changes no cell from solid to open or back.
pub proof fn lemma_fix_walls_idempotent(tiles: Seq<TileType>, w: int, h: int)
    requires
        1 <= w,
        1 <= h,
        tiles.len() == w * h,
    ensures
        same_solidity(fix_walls_grid(tiles, w, h), tiles, w, h),
        fix_walls_grid(fix_walls_grid(tiles, w, h), w, h) == fix_walls_grid(tiles, w, h),
{
    let t1 = fix_walls_grid(tiles, w, h);
    assert forall|x: int, y: int| grid_in_bounds(w, h, x, y) implies is_solid_tile(
        #[trigger] t1[grid_idx(w, x, y)],
    ) == is_solid_tile(tiles[grid_idx(w, x, y)]) by {
        lemma_fix_walls_grid_at(tiles, w, h, x, y);
        lemma_fixed_keeps_solidity(tiles, w, h, x, y);
    }
    let t2 = fix_walls_grid(t1, w, h);
    assert forall|i: int| 0 <= i < w * h implies #[trigger] t2[i] == t1[i] by {
        lemma_idx_of_index(w, h, i);
        let x = i % w;
        let y = i / w;
        lemma_fix_walls_grid_at(tiles, w, h, x, y);
        lemma_fix_walls_grid_at(t1, w, h, x, y);
        lemma_same_solidity_code(t1, tiles, w, h, x, y);
        lemma_same_solidity_at(t1, tiles, w, h, x, y);
    }
    assert(t2 =~= t1);
}

/// A floor stays a floor under `fix_walls`.
pub proof fn lemma_fix_walls_keeps_floors(tiles: Seq<TileType>, w: int, h: int)
    requires
        1 <= w,
        1 <= h,
        tiles.len() == w * h,
    ensures
        floors_kept(tiles, fix_walls_grid(tiles, w, h)),
{
    assert forall|i: int| 0 <= i < tiles.len() && tiles[i] == TileType::Floor implies #[trigger] fix_walls_grid(
        tiles,
        w,
        h,
    )[i] == TileType::Floor by {
        lemma_idx_of_index(w, h, i);
        lemma_fix_walls_grid_at(tiles, w, h, i % w, i / w);
    }
}

/// Digging a room floors its inside.
pub proof fn lemma_dig_room_floored(tiles: Seq<TileType>, w: int, h: int, room: Rect)
    requires
        tiles.len() == w * h,
        room_on_map(room, w, h),
    ensures
        room_floored(dig_room(tiles, w, room), w, room),
{
    assert forall|x: int, y: int| in_room_interior(room, x, y) implies #[trigger] dig_room(
        tiles,
        w,
        room,
    )[grid_idx(w, x, y)] == TileType::Floor by {
        lemma_idx_in_range(w, h, x, y);
        lemma_cell_of_idx(w, x, y);
    }
}

/// A floored room stays floored while floors are kept.
pub proof fn lemma_room_floored_kept(
    a: Seq<TileType>,
    b: Seq<TileType>,
    w: int,
    h: int,
    room: Rect,
)
    requires
        a.len() == w * h,
        floors_kept(a, b),
        room_on_map(room, w, h),
        room_floored(a, w, room),
    ensures
        room_floored(b, w, room),
{
    assert forall|x: int, y: int| in_room_interior(room, x, y) implies #[trigger] b[grid_idx(
        w,
        x,
        y,
    )] == TileType::Floor by {
        lemma_idx_in_range(w, h, x, y);
        assert(a[grid_idx(w, x, y)] == TileType::Floor);
    }
}

/// A path of floor stays one while floors are kept.
pub proof fn lemma_floor_path_kept(
    a: Seq<TileType>,
    b: Seq<TileType>,
    w: int,
    h: int,
    from: Point,
    to: Point,
)
    requires
        a.len() == w * h,
        floors_kept(a, b),
        grid_in_bounds(w, h, from.x as int, from.y as int),
        grid_in_bounds(w, h, to.x as int, to.y as int),
        floor_path(a, w, from, to),
    ensures
        floor_path(b, w, from, to),
{
    let (fx, fy, tx, ty) = (from.x as int, from.y as int, to.x as int, to.y as int);
    if forall|x: int| between(fx, tx, x) ==> #[trigger] a[grid_idx(w, x, fy)] == TileType::Floor {
        assert forall|x: int| between(fx, tx, x) implies #[trigger] b[grid_idx(w, x, fy)]
            == TileType::Floor by {
            lemma_idx_in_range(w, h, x, fy);
            assert(a[grid_idx(w, x, fy)] == TileType::Floor);
        }
    }
    if forall|y: int| between(fy, ty, y) ==> #[trigger] a[grid_idx(w, tx, y)] == TileType::Floor {
        assert forall|y: int| between(fy, ty, y) implies #[trigger] b[grid_idx(w, tx, y)]
            == TileType::Floor by {
            lemma_idx_in_range(w, h, tx, y);
            assert(a[grid_idx(w, tx, y)] == TileType::Floor);
        }
    }
    if forall|y: int| between(fy, ty, y) ==> #[trigger] a[grid_idx(w, fx, y)] == TileType::Floor {
        assert forall|y: int| between(fy, ty, y) implies #[trigger] b[grid_idx(w, fx, y)]
            == TileType::Floor by {
            lemma_idx_in_range(w, h, fx, y);
            assert(a[grid_idx(w, fx, y)] == TileType::Floor);
        }
    }
    if forall|x: int| between(fx, tx, x) ==> #[trigger] a[grid_idx(w, x, ty)] == TileType::Floor {
        assert forall|x: int| between(fx, tx, x) implies #[trigger] b[grid_idx(w, x, ty)]
            == TileType::Floor by {
            lemma_idx_in_range(w, h, x, ty);
            assert(a[grid_idx(w, x, ty)] == TileType::Floor);
        }
    }
}

/// The corridor between two points off the map's first row and column is
/// a path of floor.
pub proof fn lemma_corridor_path(
    tiles: Seq<TileType>,
    w: int,
    h: int,
    from: Point,
    to: Point,
    horizontal_first: bool,
)
    requires
        tiles.len() == w * h,
        grid_in_bounds(w, h, from.x as int, from.y as int),
        grid_in_bounds(w, h, to.x as int, to.y as int),
        1 <= from.x,
        1 <= from.y,
        1 <= to.x,
        1 <= to.y,
    ensures
        floor_path(dig_corridor(tiles, w, from, to, horizontal_first), w, from, to),
{
    let d = dig_corridor(tiles, w, from, to, horizontal_first);
    if horizontal_first {
        let r = dig_row(tiles, w, from.x as int, to.x as int, from.y as int);
        assert forall|x: int| between(from.x as int, to.x as int, x) implies #[trigger] d[grid_idx(
            w,
            x,
            from.y as int,
        )] == TileType::Floor by {
            lemma_idx_in_range(w, h, x, from.y as int);
            lemma_cell_of_idx(w, x, from.y as int);
            assert(r[grid_idx(w, x, from.y as int)] == TileType::Floor);
        }
        assert forall|y: int| between(from.y as int, to.y as int, y) implies #[trigger] d[grid_idx(
            w,
            to.x as int,
            y,
        )] == TileType::Floor by {
            lemma_idx_in_range(w, h, to.x as int, y);
            lemma_cell_of_idx(w, to.x as int, y);
        }
    } else {
        let c = dig_column(tiles, w, from.y as int, to.y as int, from.x as int);
        assert forall|y: int| between(from.y as int, to.y as int, y) implies #[trigger] d[grid_idx(
            w,
            from.x as int,
            y,
        )] == TileType::Floor by {
            lemma_idx_in_range(w, h, from.x as int, y);
            lemma_cell_of_idx(w, from.x as int, y);
            assert(c[grid_idx(w, from.x as int, y)] == TileType::Floor);
        }
        assert forall|x: int| between(from.x as int, to.x as int, x) implies #[trigger] d[grid_idx(
            w,
            x,
            to.y as int,
        )] == TileType::Floor by {
            lemma_idx_in_range(w, h, x, to.y as int);
            lemma_cell_of_idx(w, x, to.y as int);
        }
    }
}

/// A room as the map generator makes them: it fits on the map and is six
/// to nine tiles across each way.
pub open spec fn room_sized(room: Rect, w: int, h: int) -> bool {
    &&& room_fits(room, w, h)
    &&& 6 <= room.x2 - room.x1 <= 9
    &&& 6 <= room.y2 - room.y1 <= 9
}

/// The rooms do not overlap; each is sized as the generator makes them
/// and floored inside; each is joined to the one before it by a path of
/// floor between their centers.
pub open spec fn rooms_laid_out(tiles: Seq<TileType>, w: int, h: int, rooms: Seq<Rect>) -> bool {
    &&& rooms_disjoint(rooms)
    &&& forall|k: int|
        #![trigger rooms[k]]
        0 <= k < rooms.len() ==> room_sized(rooms[k], w, h) && room_floored(tiles, w, rooms[k])
    &&& forall|k: int|
        1 <= k < rooms.len() ==> floor_path(
            tiles,
            w,
            #[trigger] rooms[k - 1].spec_center(),
            rooms[k].spec_center(),
        )
}

/// The layout of the rooms survives any change that keeps floors.
pub proof fn lemma_layout_kept(a: Seq<TileType>, b: Seq<TileType>, w: int, h: int, rooms: Seq<Rect>)
    requires
        a.len() == w * h,
        floors_kept(a, b),
        rooms_laid_out(a, w, h, rooms),
    ensures
        rooms_laid_out(b, w, h, rooms),
{
    assert forall|k: int|
        #![trigger rooms[k]]
        0 <= k < rooms.len() implies room_sized(rooms[k], w, h) && room_floored(
        b,
        w,
        rooms[k],
    ) by {
        lemma_room_floored_kept(a, b, w, h, rooms[k]);
    }
    assert forall|k: int| 1 <= k < rooms.len() implies floor_path(
        b,
        w,
        #[trigger] rooms[k - 1].spec_center(),
        rooms[k].spec_center(),
    ) by {
        assert(room_sized(rooms[k], w, h));
        assert(room_sized(rooms[k - 1], w, h));
        lemma_floor_path_kept(a, b, w, h, rooms[k - 1].spec_center(), rooms[k].spec_center());
    }
}

/// Adding a room that overlaps none, digging it and its corridor from the
/// last room, keeps the layout.
pub proof fn lemma_layout_after_add(
    tiles: Seq<TileType>,
    w: int,
    h: int,
    rooms: Seq<Rect>,
    new_room: Rect,
    horizontal_first: bool,
)
    requires
        tiles.len() == w * h,
        rooms_laid_out(tiles, w, h, rooms),
        room_sized(new_room, w, h),
        forall|k: int| 0 <= k < rooms.len() ==> !new_room.spec_intersect(&#[trigger] rooms[k]),
    ensures
        ({
            let dug = dig_room(tiles, w, new_room);
            let after = if rooms.len() == 0 {
                dug
            } else {
                dig_corridor(
                    dug,
                    w,
                    rooms.last().spec_center(),
                    new_room.spec_center(),
                    horizontal_first,
                )
            };
            &&& floors_kept(tiles, after)
            &&& rooms_laid_out(after, w, h, rooms.push(new_room))
        }),
{
    let dug = dig_room(tiles, w, new_room);
    let n = rooms.len();
    let all = rooms.push(new_room);
    lemma_dig_room_floored(tiles, w, h, new_room);
    lemma_digs_keep_floors(tiles, w, new_room, 0, 0, 0);
    let after = if n == 0 {
        dug
    } else {
        dig_corridor(dug, w, rooms.last().spec_center(), new_room.spec_center(), horizontal_first)
    };
    if n > 0 {
        let prev = rooms[n - 1];
        assert(room_sized(prev, w, h));
        let from = prev.spec_center();
        let to = new_room.spec_center();
        lemma_corridor_path(dug, w, h, from, to, horizontal_first);
        let (fx, fy, tx, ty) = (from.x as int, from.y as int, to.x as int, to.y as int);
        if horizontal_first {
            let r = dig_row(dug, w, fx, tx, fy);
            lemma_digs_keep_floors(dug, w, new_room, fx, tx, fy);
            lemma_digs_keep_floors(r, w, new_room, fy, ty, tx);
            lemma_floors_kept_trans(dug, r, after);
        } else {
            let c = dig_column(dug, w, fy, ty, fx);
            lemma_digs_keep_floors(dug, w, new_room, fy, ty, fx);
            lemma_digs_keep_floors(c, w, new_room, fx, tx, ty);
            lemma_floors_kept_trans(dug, c, after);
        }
        lemma_room_floored_kept(dug, after, w, h, new_room);
    }
    lemma_floors_kept_trans(tiles, dug, after);
    lemma_layout_kept(tiles, after, w, h, rooms);
    assert forall|a: int, b: int|
        #![trigger all[a], all[b]]
        0 <= a < all.len() && 0 <= b < all.len() && a != b implies !all[a].spec_intersect(
        &all[b],
    ) by {
        if a < n && b < n {
            assert(rooms[a] == all[a]);
            assert(rooms[b] == all[b]);
        } else if a == n {
            assert(!new_room.spec_intersect(&rooms[b]));
        } else {
            assert(!new_room.spec_intersect(&rooms[a]));
        }
    }
    assert forall|k: int|
        #![trigger all[k]]
        0 <= k < all.len() implies room_sized(all[k], w, h) && room_floored(after, w, all[k]) by {
        if k < n {
            assert(rooms[k] == all[k]);
        }
    }
    assert forall|k: int| 1 <= k < all.len() implies floor_path(
        after,
        w,
        #[trigger] all[k - 1].spec_center(),
        all[k].spec_center(),
    ) by {
        if k < n {
            assert(rooms[k] == all[k]);
            assert(rooms[k - 1] == all[k - 1]);
        } else {
            assert(rooms[k - 1] == all[k - 1]);
        }
    }
}

pub struct GameMap<Entity> {
    pub tiles: Vec<TileType>,
    pub rooms: Vec<Rect>,
    pub width: i32,
    pub height: i32,
    pub revealed_tiles: Vec<bool>,
    pub visible_tiles: Vec<bool>,
    pub blocked: Vec<bool>,
    /// Does the tile contain anything that seems dangerous?
    pub dangerous: Vec<bool>,
    pub tile_content: Vec<Vec<Entity>>,
    /// Whether path searches only go through revealed tiles.
    pub only_revealed: bool,
}

impl<Entity> GameMap<Entity> {
    /// The number of tiles.
    pub open spec fn size(&self) -> int {
        self.width * self.height
    }

    /// The map's vectors all hold one entry per tile, and every index fits
    /// in `i32`.
    pub open spec fn wf(&self) -> bool {
        &&& 1 <= self.width
        &&& 1 <= self.height
        &&& self.width * self.height <= i32::MAX
        &&& self.tiles@.len() == self.size()
        &&& self.revealed_tiles@.len() == self.size()
        &&& self.visible_tiles@.len() == self.size()
        &&& self.blocked@.len() == self.size()
        &&& self.dangerous@.len() == self.size()
        &&& self.tile_content@.len() == self.size()
    }

    pub open spec fn spec_in_bounds(&self, x: int, y: int) -> bool {
        grid_in_bounds(self.width as int, self.height as int, x, y)
    }

    pub open spec fn spec_idx(&self, x: int, y: int) -> int {
        grid_idx(self.width as int, x, y)
    }

    /// Whether `(x, y)` is solid; outside the map counts as solid.
    pub open spec fn spec_solid(&self, x: int, y: int) -> bool {
        solid_at(self.tiles@, self.width as int, self.height as int, x, y)
    }

    /// Whether a step onto `(x, y)` is allowed by path searches.
    pub open spec fn spec_exit_valid(&self, x: int, y: int) -> bool {
        &&& self.spec_in_bounds(x, y)
        &&& !(self.only_revealed && !self.revealed_tiles@[self.spec_idx(x, y)])
        &&& !self.blocked@[self.spec_idx(x, y)]
    }

    /// The index of `(x, y)`: `(y * width + x) as usize`, which wraps for
    /// a position left of or above the map.
    pub fn xy_to_idx(&self, x: i32, y: i32) -> (r: usize)
        requires
            i32::MIN <= y * self.width <= i32::MAX,
            i32::MIN <= y * self.width + x <= i32::MAX,
        ensures
            r == #[verifier::truncate] ((y * self.width + x) as usize),
    {
        #[verifier::truncate]
        ((y * self.width + x) as usize)
    }

    /// The index of an in-bounds position.
    pub fn idx_of(&self, x: i32, y: i32) -> (r: usize)
        requires
            self.wf(),
            self.spec_in_bounds(x as int, y as int),
        ensures
            r == self.spec_idx(x as int, y as int),
            r < self.size(),
    {
        proof {
            lemma_idx_in_range(self.width as int, self.height as int, x as int, y as int);
        }
        (y * self.width + x) as usize
    }

    /// The index of a map position.
    pub fn map_pos_to_idx(&self, pos: MapPosition) -> (r: usize)
        requires
            i32::MIN <= pos.y * self.width <= i32::MAX,
            i32::MIN <= pos.y * self.width + pos.x <= i32::MAX,
        ensures
            r == #[verifier::truncate] ((pos.y * self.width + pos.x) as usize),
    {
        self.xy_to_idx(pos.x, pos.y)
    }

    /// The position of an index.
    pub fn index_to_point2d(&self, idx: usize) -> (r: Point)
        requires
            self.wf(),
            idx < self.size(),
        ensures
            self.spec_in_bounds(r.x as int, r.y as int),
            self.spec_idx(r.x as int, r.y as int) == idx,
    {
        proof {
            lemma_idx_of_index(self.width as int, self.height as int, idx as int);
        }
        let i = idx as i32;
        Point::new(i % self.width, i / self.width)
    }

    /// Whether the point lies on the map.
    pub fn in_bounds(&self, pos: Point) -> (r: bool)
        ensures
            r == self.spec_in_bounds(pos.x as int, pos.y as int),
    {
        pos.x >= 0 && pos.x < self.width && pos.y >= 0 && pos.y < self.height
    }

    /// Whether the tile at `idx` blocks sight.
    pub fn is_opaque(&self, idx: usize) -> (r: bool)
        requires
            idx < self.tiles@.len(),
        ensures
            r == is_solid_tile(self.tiles@[idx as int]),
    {
        match self.tiles[idx] {
            TileType::Wall(_) | TileType::Stone => true,
            _ => false,
        }
    }

    /// Whether the point is solid; outside the map counts as solid.
    pub fn is_solid(&self, pos: Point) -> (r: bool)
        requires
            self.wf(),
        ensures
            r == self.spec_solid(pos.x as int, pos.y as int),
    {
        if !self.in_bounds(pos) {
            return true;
        }
        let idx = self.idx_of(pos.x, pos.y);
        match self.tiles[idx] {
            TileType::Wall(_) | TileType::Stone => true,
            _ => false,
        }
    }

    /// Whether a path may step onto `(x, y)`: on the map, revealed when
    /// searches keep to revealed tiles, and not blocked.
    pub fn is_exit_valid(&self, x: i32, y: i32) -> (r: bool)
        requires
            self.wf(),
        ensures
            r == self.spec_exit_valid(x as int, y as int),
    {
        if x < 0 || x > self.width - 1 || y < 0 || y > self.height - 1 {
            return false;
        }
        let idx = self.idx_of(x, y);
        if self.only_revealed && !self.revealed_tiles[idx] {
            return false;
        }
        !self.blocked[idx]
    }

    /// Path searches go through revealed tiles only.
    pub fn search_only_revealed(&mut self)
        ensures
            *final(self) == (GameMap { only_revealed: true, ..*old(self) }),
    {
        self.only_revealed = true
    }

    /// Path searches go through any tile.
    pub fn search_also_revealed(&mut self)
        ensures
            *final(self) == (GameMap { only_revealed: false, ..*old(self) }),
    {
        self.only_revealed = false
    }

    /// Marks exactly the solid tiles as blocked.
    pub fn populate_blocked(&mut self)
        requires
            old(self).tiles@.len() <= old(self).blocked@.len(),
        ensures
            final(self).blocked@.len() == old(self).blocked@.len(),
            forall|i: int|
                0 <= i < final(self).tiles@.len() ==> final(self).blocked@[i] == is_solid_tile(
                    final(self).tiles@[i],
                ),
            forall|i: int|
                final(self).tiles@.len() <= i < final(self).blocked@.len()
                    ==> final(self).blocked@[i] == old(self).blocked@[i],
            final(self).tiles == old(self).tiles,
            final(self).rooms == old(self).rooms,
            final(self).width == old(self).width,
            final(self).height == old(self).height,
            final(self).revealed_tiles == old(self).revealed_tiles,
            final(self).visible_tiles == old(self).visible_tiles,
            final(self).dangerous == old(self).dangerous,
            final(self).tile_content == old(self).tile_content,
            final(self).only_revealed == old(self).only_revealed,
    {
        let n = self.tiles.len();
        for i in 0..n
            invariant
                n == self.tiles@.len(),
                n <= old(self).blocked@.len(),
                self.blocked@.len() == old(self).blocked@.len(),
                forall|j: int|
                    n <= j < self.blocked@.len() ==> self.blocked@[j] == old(self).blocked@[j],
                self.tiles == old(self).tiles,
                self.rooms == old(self).rooms,
                self.width == old(self).width,
                self.height == old(self).height,
                self.revealed_tiles == old(self).revealed_tiles,
                self.visible_tiles == old(self).visible_tiles,
                self.dangerous == old(self).dangerous,
                self.tile_content == old(self).tile_content,
                self.only_revealed == old(self).only_revealed,
                forall|j: int| 0 <= j < i ==> self.blocked@[j] == is_solid_tile(self.tiles@[j]),
        {
            let solid = match self.tiles[i] {
                TileType::Wall(_) | TileType::Stone => true,
                _ => false,
            };
            self.blocked.set(i, solid);
        }
    }

    /// The eight points around `(x, y)`, clockwise from the top left.
    fn points_around(x: i32, y: i32) -> (r: Vec<Point>)
        requires
            i32::MIN < x < i32::MAX,
            i32::MIN < y < i32::MAX,
        ensures
            r@.len() == 8,
            forall|k: int|
                0 <= k < 8 ==> (#[trigger] r@[k].x as int, r@[k].y as int) == around(
                    x as int,
                    y as int,
                )[k],
    {
        vec![
            Point::new(x - 1, y - 1),
            Point::new(x, y - 1),
            Point::new(x + 1, y - 1),
            Point::new(x + 1, y),
            Point::new(x + 1, y + 1),
            Point::new(x, y + 1),
            Point::new(x - 1, y + 1),
            Point::new(x - 1, y),
        ]
    }

    /// How many of the eight cells around `(x, y)` are open.
    fn count_open_around(&self, x: i32, y: i32) -> (c: usize)
        requires
            self.wf(),
            self.spec_in_bounds(x as int, y as int),
        ensures
            c == open_around(self.tiles@, self.width as int, self.height as int, x as int, y as int),
    {
        let pts = Self::points_around(x, y);
        let ghost around_xy = around(x as int, y as int);
        let mut c: usize = 0;
        for k in 0..8
            invariant
                self.wf(),
                pts@.len() == 8,
                forall|j: int|
                    0 <= j < 8 ==> (#[trigger] pts@[j].x as int, pts@[j].y as int) == around_xy[j],
                around_xy == around(x as int, y as int),
                c <= k,
                c == count_open(self.tiles@, self.width as int, self.height as int, around_xy.take(k as int)),
        {
            assert(around_xy.take(k + 1).drop_last() =~= around_xy.take(k as int));
            assert((pts@[k as int].x as int, pts@[k as int].y as int) == around_xy[k as int]);
            if !self.is_solid(pts[k]) {
                c = c + 1;
            }
        }
        assert(around_xy.take(8) =~= around_xy);
        c
    }

    /// Whether the wall at `pos` continues in the direction `(dx, dy)`.
    fn wall_continues(&self, pos: Point, dx: i32, dy: i32) -> (r: bool)
        requires
            self.wf(),
            self.spec_in_bounds(pos.x as int, pos.y as int),
            -1 <= dx <= 1,
            -1 <= dy <= 1,
        ensures
            r == continues(
                self.tiles@,
                self.width as int,
                self.height as int,
                pos.x as int,
                pos.y as int,
                dx as int,
                dy as int,
            ),
    {
        let new_pos = Point::new(pos.x + dx, pos.y + dy);
        if !self.is_solid(new_pos) {
            return false;
        }
        if dx != 0 {
            if !self.is_solid(Point::new(pos.x + dx, pos.y - 1)) || !self.is_solid(
                Point::new(pos.x + dx, pos.y),
            ) || !self.is_solid(Point::new(pos.x + dx, pos.y + 1)) || !self.is_solid(
                Point::new(pos.x, pos.y - 1),
            ) || !self.is_solid(Point::new(pos.x, pos.y + 1)) {
                return true;
            }
        } else if !self.is_solid(Point::new(pos.x - 1, pos.y + dy)) || !self.is_solid(
            Point::new(pos.x, pos.y + dy),
        ) || !self.is_solid(Point::new(pos.x + 1, pos.y + dy)) || !self.is_solid(
            Point::new(pos.x - 1, pos.y),
        ) || !self.is_solid(Point::new(pos.x + 1, pos.y)) {
            return true;
        }
        false
    }

    /// Gives every wall its shape from its neighbours. Solid cells with no
    /// open neighbour become stone; solid cells with only open neighbours
    /// become pillars; every wall then gets the shape of the directions in
    /// which it continues.
    pub fn fix_walls(&mut self)
        requires
            old(self).wf(),
        ensures
            final(self).wf(),
            final(self).tiles@.len() == old(self).tiles@.len(),
            final(self).tiles@ == fix_walls_grid(
                old(self).tiles@,
                old(self).width as int,
                old(self).height as int,
            ),
            forall|x: int, y: int|
                old(self).spec_in_bounds(x, y) ==> #[trigger] final(self).tiles@[old(
                    self,
                ).spec_idx(x, y)] == fixed_tile(
                    old(self).tiles@,
                    old(self).width as int,
                    old(self).height as int,
                    x,
                    y,
                ),
            final(self).rooms == old(self).rooms,
            final(self).width == old(self).width,
            final(self).height == old(self).height,
            final(self).revealed_tiles == old(self).revealed_tiles,
            final(self).visible_tiles == old(self).visible_tiles,
            final(self).blocked == old(self).blocked,
            final(self).dangerous == old(self).dangerous,
            final(self).tile_content == old(self).tile_content,
            final(self).only_revealed == old(self).only_revealed,
    {
        let ghost orig = self.tiles@;
        let ghost w = self.width as int;
        let ghost h = self.height as int;
        let height = self.height;
        let width = self.width;
        // Remove single walls completely surrounded; change single walls
        // completely lonely.
        for y in 0..height
            invariant
                self.wf(),
                self.width == width,
                self.height == height,
                w == width,
                h == height,
                self.rooms == old(self).rooms,
                self.revealed_tiles == old(self).revealed_tiles,
                self.visible_tiles == old(self).visible_tiles,
                self.blocked == old(self).blocked,
                self.dangerous == old(self).dangerous,
                self.tile_content == old(self).tile_content,
                self.only_revealed == old(self).only_revealed,
                orig.len() == w * h,
                same_solidity(self.tiles@, orig, w, h),
                forall|xx: int, yy: int|
                    grid_in_bounds(w, h, xx, yy) && yy < y ==> #[trigger] self.tiles@[grid_idx(
                        w,
                        xx,
                        yy,
                    )] == first_pass_tile(orig, w, h, xx, yy),
                forall|xx: int, yy: int|
                    grid_in_bounds(w, h, xx, yy) && yy >= y ==> #[trigger] self.tiles@[grid_idx(
                        w,
                        xx,
                        yy,
                    )] == orig[grid_idx(w, xx, yy)],
        {
            for x in 0..width
                invariant
                    self.wf(),
                    self.width == width,
                    self.height == height,
                    w == width,
                    h == height,
                    0 <= y < height,
                    self.rooms == old(self).rooms,
                    self.revealed_tiles == old(self).revealed_tiles,
                    self.visible_tiles == old(self).visible_tiles,
                    self.blocked == old(self).blocked,
                    self.dangerous == old(self).dangerous,
                    self.tile_content == old(self).tile_content,
                    self.only_revealed == old(self).only_revealed,
                    orig.len() == w * h,
                    same_solidity(self.tiles@, orig, w, h),
                    forall|xx: int, yy: int|
                        grid_in_bounds(w, h, xx, yy) && (yy < y || (yy == y && xx < x))
                            ==> #[trigger] self.tiles@[grid_idx(w, xx, yy)] == first_pass_tile(
                            orig,
                            w,
                            h,
                            xx,
                            yy,
                        ),
                    forall|xx: int, yy: int|
                        grid_in_bounds(w, h, xx, yy) && !(yy < y || (yy == y && xx < x))
                            ==> #[trigger] self.tiles@[grid_idx(w, xx, yy)] == orig[grid_idx(
                            w,
                            xx,
                            yy,
                        )],
            {
                let pos = Point::new(x, y);
                let ghost cur = self.tiles@;
                proof {
                    lemma_same_solidity_at(cur, orig, w, h, x as int, y as int);
                    lemma_same_solidity_code(cur, orig, w, h, x as int, y as int);
                    lemma_fixed_keeps_solidity(orig, w, h, x as int, y as int);
                }
                if self.is_solid(pos) {
                    let idx = self.idx_of(x, y);
                    let count_walls = self.count_open_around(x, y);
                    if count_walls == 0 {
                        self.tiles.set(idx, TileType::Stone);
                    } else if count_walls == 8 {
                        self.tiles.set(idx, TileType::Wall(WallType::Pilar));
                    }
                }
                proof {
                    assert forall|xx: int, yy: int| grid_in_bounds(w, h, xx, yy) && !(xx == x && yy
                        == y) implies #[trigger] self.tiles@[grid_idx(w, xx, yy)] == cur[grid_idx(
                        w,
                        xx,
                        yy,
                    )] by {
                        lemma_idx_in_range(w, h, xx, yy);
                        if grid_idx(w, xx, yy) == grid_idx(w, x as int, y as int) {
                            lemma_idx_unique(w, h, xx, yy, x as int, y as int);
                        }
                    }
                    lemma_idx_in_range(w, h, x as int, y as int);
                    assert(self.tiles@[grid_idx(w, x as int, y as int)] == first_pass_tile(
                        orig,
                        w,
                        h,
                        x as int,
                        y as int,
                    ));
                    assert forall|xx: int, yy: int| grid_in_bounds(w, h, xx, yy) implies is_solid_tile(
                        #[trigger] self.tiles@[grid_idx(w, xx, yy)],
                    ) == is_solid_tile(orig[grid_idx(w, xx, yy)]) by {
                        if xx == x && yy == y {
                        } else {
                            assert(self.tiles@[grid_idx(w, xx, yy)] == cur[grid_idx(w, xx, yy)]);
                        }
                    }
                }
            }
        }
        // Give every wall its shape.
        for y in 0..height
            invariant
                self.wf(),
                self.width == width,
                self.height == height,
                w == width,
                h == height,
                self.rooms == old(self).rooms,
                self.revealed_tiles == old(self).revealed_tiles,
                self.visible_tiles == old(self).visible_tiles,
                self.blocked == old(self).blocked,
                self.dangerous == old(self).dangerous,
                self.tile_content == old(self).tile_content,
                self.only_revealed == old(self).only_revealed,
                orig.len() == w * h,
                same_solidity(self.tiles@, orig, w, h),
                forall|xx: int, yy: int|
                    grid_in_bounds(w, h, xx, yy) && yy < y ==> #[trigger] self.tiles@[grid_idx(
                        w,
                        xx,
                        yy,
                    )] == fixed_tile(orig, w, h, xx, yy),
                forall|xx: int, yy: int|
                    grid_in_bounds(w, h, xx, yy) && yy >= y ==> #[trigger] self.tiles@[grid_idx(
                        w,
                        xx,
                        yy,
                    )] == first_pass_tile(orig, w, h, xx, yy),
        {
            for x in 0..width
                invariant
                    self.wf(),
                    self.width == width,
                    self.height == height,
                    w == width,
                    h == height,
                    0 <= y < height,
                    self.rooms == old(self).rooms,
                    self.revealed_tiles == old(self).revealed_tiles,
                    self.visible_tiles == old(self).visible_tiles,
                    self.blocked == old(self).blocked,
                    self.dangerous == old(self).dangerous,
                    self.tile_content == old(self).tile_content,
                    self.only_revealed == old(self).only_revealed,
                    orig.len() == w * h,
                    same_solidity(self.tiles@, orig, w, h),
                    forall|xx: int, yy: int|
                        grid_in_bounds(w, h, xx, yy) && (yy < y || (yy == y && xx < x))
                            ==> #[trigger] self.tiles@[grid_idx(w, xx, yy)] == fixed_tile(
                            orig,
                            w,
                            h,
                            xx,
                            yy,
                        ),
                    forall|xx: int, yy: int|
                        grid_in_bounds(w, h, xx, yy) && !(yy < y || (yy == y && xx < x))
                            ==> #[trigger] self.tiles@[grid_idx(w, xx, yy)] == first_pass_tile(
                            orig,
                            w,
                            h,
                            xx,
                            yy,
                        ),
            {
                let pos = Point::new(x, y);
                let ghost cur = self.tiles@;
                let idx = self.idx_of(x, y);
                proof {
                    lemma_same_solidity_code(cur, orig, w, h, x as int, y as int);
                    lemma_fixed_keeps_solidity(orig, w, h, x as int, y as int);
                    lemma_idx_in_range(w, h, x as int, y as int);
                }
                if let TileType::Wall(_) = self.tiles[idx] {
                    let mut walls: u32 = 0;
                    if self.wall_continues(pos, -1, 0) {
                        walls += 1;
                    }
                    if self.wall_continues(pos, 1, 0) {
                        walls += 2;
                    }
                    if self.wall_continues(pos, 0, -1) {
                        walls += 4;
                    }
                    if self.wall_continues(pos, 0, 1) {
                        walls += 8;
                    }
                    let walltype = wall_type_for_code(walls);
                    self.tiles.set(idx, TileType::Wall(walltype));
                }
                proof {
                    assert forall|xx: int, yy: int| grid_in_bounds(w, h, xx, yy) && !(xx == x && yy
                        == y) implies #[trigger] self.tiles@[grid_idx(w, xx, yy)] == cur[grid_idx(
                        w,
                        xx,
                        yy,
                    )] by {
                        lemma_idx_in_range(w, h, xx, yy);
                        if grid_idx(w, xx, yy) == grid_idx(w, x as int, y as int) {
                            lemma_idx_unique(w, h, xx, yy, x as int, y as int);
                        }
                    }
                    assert(self.tiles@[grid_idx(w, x as int, y as int)] == fixed_tile(
                        orig,
                        w,
                        h,
                        x as int,
                        y as int,
                    ));
                    assert forall|xx: int, yy: int| grid_in_bounds(w, h, xx, yy) implies is_solid_tile(
                        #[trigger] self.tiles@[grid_idx(w, xx, yy)],
                    ) == is_solid_tile(orig[grid_idx(w, xx, yy)]) by {
                        if xx == x && yy == y {
                        } else {
                            assert(self.tiles@[grid_idx(w, xx, yy)] == cur[grid_idx(w, xx, yy)]);
                        }
                    }
                }
            }
        }
        proof {
            let g = fix_walls_grid(orig, w, h);
            assert forall|i: int| 0 <= i < w * h implies #[trigger] self.tiles@[i] == g[i] by {
                lemma_idx_of_index(w, h, i);
                lemma_fix_walls_grid_at(orig, w, h, i % w, i / w);
            }
            assert(self.tiles@ =~= g);
        }
    }

    /// Turns the inside of the room into floor.
    fn apply_room_to_map(&mut self, room: &Rect)
        requires
            old(self).wf(),
            room_on_map(*room, old(self).width as int, old(self).height as int),
        ensures
            final(self).wf(),
            final(self).tiles@ == dig_room(old(self).tiles@, old(self).width as int, *room),
            *final(self) == (GameMap { tiles: final(self).tiles, ..*old(self) }),
    {
        let ghost w = self.width as int;
        let ghost h = self.height as int;
        let ghost n = self.tiles@.len();
        let mut y = room.y1 + 1;
        while y <= room.y2
            invariant
                self.wf(),
                w == self.width,
                h == self.height,
                n == self.tiles@.len(),
                room_on_map(*room, w, h),
                room.y1 + 1 <= y <= room.y2 + 1,
                *self == (GameMap { tiles: self.tiles, ..*old(self) }),
                forall|i: int|
                    0 <= i < n ==> #[trigger] self.tiles@[i] == (if in_room_interior(
                        *room,
                        i % w,
                        i / w,
                    ) && i / w < y {
                        TileType::Floor
                    } else {
                        old(self).tiles@[i]
                    }),
            decreases room.y2 + 1 - y,
        {
            let mut x = room.x1 + 1;
            while x <= room.x2
                invariant
                    self.wf(),
                    w == self.width,
                    h == self.height,
                    n == self.tiles@.len(),
                    room_on_map(*room, w, h),
                    room.y1 + 1 <= y <= room.y2,
                    room.x1 + 1 <= x <= room.x2 + 1,
                    *self == (GameMap { tiles: self.tiles, ..*old(self) }),
                    forall|i: int|
                        0 <= i < n ==> #[trigger] self.tiles@[i] == (if in_room_interior(
                            *room,
                            i % w,
                            i / w,
                        ) && (i / w < y || (i / w == y && i % w < x)) {
                            TileType::Floor
                        } else {
                            old(self).tiles@[i]
                        }),
                decreases room.x2 + 1 - x,
            {
                let idx = self.idx_of(x, y);
                self.tiles.set(idx, TileType::Floor);
                proof {
                    lemma_cell_of_idx(w, x as int, y as int);
                    assert forall|i: int| 0 <= i < n implies #[trigger] self.tiles@[i] == (
                    if in_room_interior(*room, i % w, i / w) && (i / w < y || (i / w == y && i % w
                        < x + 1)) {
                        TileType::Floor
                    } else {
                        old(self).tiles@[i]
                    }) by {
                        if i != idx {
                            lemma_other_cell(w, i, x as int, y as int);
                        }
                    }
                }
                x = x + 1;
            }
            y = y + 1;
        }
        proof {
            assert(self.tiles@ =~= dig_room(old(self).tiles@, w, *room));
        }
    }

    /// Turns the row `y` from `x1` to `x2` into floor (all but the first
    /// tile of the map).
    fn apply_horizontal_tunnel(&mut self, x1: i32, x2: i32, y: i32)
        requires
            old(self).wf(),
            old(self).spec_in_bounds(x1 as int, y as int),
            old(self).spec_in_bounds(x2 as int, y as int),
        ensures
            final(self).wf(),
            final(self).tiles@ == dig_row(
                old(self).tiles@,
                old(self).width as int,
                x1 as int,
                x2 as int,
                y as int,
            ),
            *final(self) == (GameMap { tiles: final(self).tiles, ..*old(self) }),
    {
        let ghost w = self.width as int;
        let ghost n = self.tiles@.len();
        let lo = if x1 < x2 {
            x1
        } else {
            x2
        };
        let hi = if x1 < x2 {
            x2
        } else {
            x1
        };
        let size = (self.width * self.height) as usize;
        let mut x = lo;
        while x <= hi
            invariant
                self.wf(),
                w == self.width,
                n == self.tiles@.len(),
                size == self.size(),
                lo <= x <= hi + 1,
                self.spec_in_bounds(lo as int, y as int),
                self.spec_in_bounds(hi as int, y as int),
                lo == (if x1 < x2 { x1 } else { x2 }),
                hi == (if x1 < x2 { x2 } else { x1 }),
                *self == (GameMap { tiles: self.tiles, ..*old(self) }),
                forall|i: int|
                    0 <= i < n ==> #[trigger] self.tiles@[i] == (if i > 0 && i / w == y && lo <= i
                        % w < x {
                        TileType::Floor
                    } else {
                        old(self).tiles@[i]
                    }),
            decreases hi + 1 - x,
        {
            let idx = self.idx_of(x, y);
            if idx > 0 && idx < size {
                self.tiles.set(idx, TileType::Floor);
            }
            proof {
                lemma_cell_of_idx(w, x as int, y as int);
                assert forall|i: int| 0 <= i < n implies #[trigger] self.tiles@[i] == (if i > 0 && i
                    / w == y && lo <= i % w < x + 1 {
                    TileType::Floor
                } else {
                    old(self).tiles@[i]
                }) by {
                    if i != idx {
                        lemma_other_cell(w, i, x as int, y as int);
                    }
                }
            }
            x = x + 1;
        }
        proof {
            assert(self.tiles@ =~= dig_row(old(self).tiles@, w, x1 as int, x2 as int, y as int));
        }
    }

    /// Turns the column `x` from `y1` to `y2` into floor (all but the
    /// first tile of the map).
    fn apply_vertical_tunnel(&mut self, y1: i32, y2: i32, x: i32)
        requires
            old(self).wf(),
            old(self).spec_in_bounds(x as int, y1 as int),
            old(self).spec_in_bounds(x as int, y2 as int),
        ensures
            final(self).wf(),
            final(self).tiles@ == dig_column(
                old(self).tiles@,
                old(self).width as int,
                y1 as int,
                y2 as int,
                x as int,
            ),
            *final(self) == (GameMap { tiles: final(self).tiles, ..*old(self) }),
    {
        let ghost w = self.width as int;
        let ghost n = self.tiles@.len();
        let lo = if y1 < y2 {
            y1
        } else {
            y2
        };
        let hi = if y1 < y2 {
            y2
        } else {
            y1
        };
        let size = (self.width * self.height) as usize;
        let mut y = lo;
        while y <= hi
            invariant
                self.wf(),
                w == self.width,
                n == self.tiles@.len(),
                size == self.size(),
                lo <= y <= hi + 1,
                self.spec_in_bounds(x as int, lo as int),
                self.spec_in_bounds(x as int, hi as int),
                lo == (if y1 < y2 { y1 } else { y2 }),
                hi == (if y1 < y2 { y2 } else { y1 }),
                *self == (GameMap { tiles: self.tiles, ..*old(self) }),
                forall|i: int|
                    0 <= i < n ==> #[trigger] self.tiles@[i] == (if i > 0 && i % w == x && lo <= i
                        / w < y {
                        TileType::Floor
                    } else {
                        old(self).tiles@[i]
                    }),
            decreases hi + 1 - y,
        {
            let idx = self.idx_of(x, y);
            if idx > 0 && idx < size {
                self.tiles.set(idx, TileType::Floor);
            }
            proof {
                lemma_cell_of_idx(w, x as int, y as int);
                assert forall|i: int| 0 <= i < n implies #[trigger] self.tiles@[i] == (if i > 0 && i
                    % w == x && lo <= i / w < y + 1 {
                    TileType::Floor
                } else {
                    old(self).tiles@[i]
                }) by {
                    if i != idx {
                        lemma_other_cell(w, i, x as int, y as int);
                    }
                }
            }
            y = y + 1;
        }
        proof {
            assert(self.tiles@ =~= dig_column(old(self).tiles@, w, y1 as int, y2 as int, x as int));
        }
    }

    /// Adds the room unless it overlaps one already on the map: digs it
    /// out and, when the map has rooms already, digs a corridor to its
    /// center from the center of the last room added, along a row first
    /// when `horizontal_first`, else along a column first. Returns whether
    /// the room was added.
    pub fn add_room(&mut self, new_room: Rect, horizontal_first: bool) -> (added: bool)
        requires
            old(self).wf(),
            room_on_map(new_room, old(self).width as int, old(self).height as int),
            forall|k: int|
                0 <= k < old(self).rooms@.len() ==> room_on_map(
                    #[trigger] old(self).rooms@[k],
                    old(self).width as int,
                    old(self).height as int,
                ),
        ensures
            final(self).wf(),
            added == (forall|k: int|
                0 <= k < old(self).rooms@.len() ==> !new_room.spec_intersect(
                    &#[trigger] old(self).rooms@[k],
                )),
            !added ==> *final(self) == *old(self),
            added ==> final(self).rooms@ == old(self).rooms@.push(new_room),
            added ==> final(self).tiles@ == (if old(self).rooms@.len() == 0 {
                dig_room(old(self).tiles@, old(self).width as int, new_room)
            } else {
                dig_corridor(
                    dig_room(old(self).tiles@, old(self).width as int, new_room),
                    old(self).width as int,
                    old(self).rooms@.last().spec_center(),
                    new_room.spec_center(),
                    horizontal_first,
                )
            }),
            *final(self) == (GameMap {
                tiles: final(self).tiles,
                rooms: final(self).rooms,
                ..*old(self)
            }),
            floors_kept(old(self).tiles@, final(self).tiles@),
    {
        let ghost w = self.width as int;
        let ghost h = self.height as int;
        let mut ok = true;
        let mut k: usize = 0;
        while k < self.rooms.len()
            invariant
                *self == *old(self),
                0 <= k <= self.rooms@.len(),
                ok == (forall|j: int|
                    0 <= j < k ==> !new_room.spec_intersect(&#[trigger] self.rooms@[j])),
            decreases self.rooms@.len() - k,
        {
            if new_room.intersect(&self.rooms[k]) {
                ok = false;
            }
            k = k + 1;
        }
        if ok {
            proof {
                lemma_digs_keep_floors(self.tiles@, w, new_room, 0, 0, 0);
            }
            self.apply_room_to_map(&new_room);
            if self.rooms.len() > 0 {
                let last = self.rooms.len() - 1;
                let prev_room = self.rooms[last];
                assert(prev_room == old(self).rooms@[last as int]);
                assert(2 * w <= w * h && 2 * h <= w * h) by (nonlinear_arith)
                    requires
                        2 <= h,
                        2 <= w,
                ;
                let new_pos = new_room.center();
                let prev_pos = prev_room.center();
                let ghost t0 = self.tiles@;
                if horizontal_first {
                    self.apply_horizontal_tunnel(prev_pos.x, new_pos.x, prev_pos.y);
                    let ghost t1 = self.tiles@;
                    self.apply_vertical_tunnel(prev_pos.y, new_pos.y, new_pos.x);
                    proof {
                        lemma_digs_keep_floors(t0, w, new_room, prev_pos.x as int, new_pos.x as int, prev_pos.y as int);
                        lemma_digs_keep_floors(t1, w, new_room, prev_pos.y as int, new_pos.y as int, new_pos.x as int);
                        lemma_floors_kept_trans(t0, t1, self.tiles@);
                    }
                } else {
                    self.apply_vertical_tunnel(prev_pos.y, new_pos.y, prev_pos.x);
                    let ghost t1 = self.tiles@;
                    self.apply_horizontal_tunnel(prev_pos.x, new_pos.x, new_pos.y);
                    proof {
                        lemma_digs_keep_floors(t0, w, new_room, prev_pos.y as int, new_pos.y as int, prev_pos.x as int);
                        lemma_digs_keep_floors(t1, w, new_room, prev_pos.x as int, new_pos.x as int, new_pos.y as int);
                        lemma_floors_kept_trans(t0, t1, self.tiles@);
                    }
                }
                proof {
                    lemma_floors_kept_trans(old(self).tiles@, t0, self.tiles@);
                }
            }
            self.rooms.push(new_room);
        }
        ok
    }

    /// A map of `MAP_WIDTH` by `MAP_HEIGHT` with up to thirty rooms, placed
    /// at random where they overlap no other, each joined by a corridor to
    /// the one placed before it; its walls shaped by `fix_walls` and its
    /// solid tiles blocked.
    pub fn new_map_rooms_and_corridors() -> (map: GameMap<Entity>)
        ensures
            map.wf(),
            map.width == MAP_WIDTH,
            map.height == MAP_HEIGHT,
            1 <= map.rooms@.len() <= 30,
            rooms_laid_out(map.tiles@, MAP_WIDTH as int, MAP_HEIGHT as int, map.rooms@),
            fix_walls_grid(map.tiles@, MAP_WIDTH as int, MAP_HEIGHT as int) == map.tiles@,
            forall|i: int|
                0 <= i < map.size() ==> map.blocked@[i] == is_solid_tile(#[trigger] map.tiles@[i]),
            forall|i: int|
                0 <= i < map.size() ==> !(#[trigger] map.revealed_tiles@[i])
                    && !map.visible_tiles@[i] && !map.dangerous@[i]
                    && map.tile_content@[i]@.len() == 0,
            !map.only_revealed,
    {
        let mut map: GameMap<Entity> = GameMap::new(MAP_WIDTH, MAP_HEIGHT);
        let ghost w = MAP_WIDTH as int;
        let ghost h = MAP_HEIGHT as int;
        let mut rng = new_rng();
        let mut i: i32 = 0;
        while i < 30
            invariant
                0 <= i <= 30,
                w == MAP_WIDTH,
                h == MAP_HEIGHT,
                map.wf(),
                map.width == MAP_WIDTH,
                map.height == MAP_HEIGHT,
                map.rooms@.len() <= i,
                i > 0 ==> map.rooms@.len() >= 1,
                rooms_laid_out(map.tiles@, w, h, map.rooms@),
                forall|j: int|
                    0 <= j < map.size() ==> !(#[trigger] map.revealed_tiles@[j])
                        && !map.visible_tiles@[j] && !map.dangerous@[j]
                        && map.tile_content@[j]@.len() == 0,
                !map.only_revealed,
            decreases 30 - i,
        {
            let rw = range(&mut rng, 6, 10);
            let rh = range(&mut rng, 6, 10);
            let x = roll_dice(&mut rng, 1, map.width - rw - 1) - 1;
            let y = roll_dice(&mut rng, 1, map.height - rh - 1) - 1;
            let new_room = Rect::with_size(x, y, rw, rh);
            let horizontal_first = range(&mut rng, 0, 2) == 1;
            let ghost before = map;
            assert forall|k: int| 0 <= k < map.rooms@.len() implies room_on_map(
                #[trigger] map.rooms@[k],
                w,
                h,
            ) by {
                assert(room_sized(map.rooms@[k], w, h));
            }
            let added = map.add_room(new_room, horizontal_first);
            proof {
                if added {
                    lemma_layout_after_add(
                        before.tiles@,
                        w,
                        h,
                        before.rooms@,
                        new_room,
                        horizontal_first,
                    );
                }
            }
            i = i + 1;
        }
        let ghost before_fix = map.tiles@;
        map.fix_walls();
        proof {
            lemma_fix_walls_idempotent(before_fix, w, h);
            lemma_fix_walls_keeps_floors(before_fix, w, h);
            lemma_layout_kept(before_fix, map.tiles@, w, h, map.rooms@);
        }
        map.populate_blocked();
        map
    }

    /// Whether the position is visible to the player.
    pub fn is_visible(&self, pos: MapPosition) -> (r: bool)
        requires
            self.wf(),
            self.spec_in_bounds(pos.x as int, pos.y as int),
        ensures
            r == self.visible_tiles@[self.spec_idx(pos.x as int, pos.y as int)],
    {
        let idx = self.idx_of(pos.x, pos.y);
        self.visible_tiles[idx]
    }

    /// Empties the list of what stands on each tile.
    pub fn clear_content_index(&mut self)
        ensures
            final(self).tile_content@.len() == old(self).tile_content@.len(),
            forall|i: int|
                0 <= i < final(self).tile_content@.len() ==> final(self).tile_content@[i]@.len()
                    == 0,
            final(self).tiles == old(self).tiles,
            final(self).rooms == old(self).rooms,
            final(self).width == old(self).width,
            final(self).height == old(self).height,
            final(self).revealed_tiles == old(self).revealed_tiles,
            final(self).visible_tiles == old(self).visible_tiles,
            final(self).blocked == old(self).blocked,
            final(self).dangerous == old(self).dangerous,
            final(self).only_revealed == old(self).only_revealed,
    {
        let n = self.tile_content.len();
        let mut contents: Vec<Vec<Entity>> = Vec::new();
        for i in 0..n
            invariant
                contents@.len() == i,
                forall|j: int| 0 <= j < i ==> contents@[j]@.len() == 0,
        {
            contents.push(Vec::new());
        }
        self.tile_content = contents;
    }

    /// A map of walls (crosses) of the given size, with nothing revealed,
    /// visible, blocked or dangerous, and no rooms.
    pub fn new(width: i32, height: i32) -> (r: GameMap<Entity>)
        requires
            1 <= width,
            1 <= height,
            width * height <= i32::MAX,
        ensures
            r.wf(),
            r.width == width,
            r.height == height,
            r.rooms@.len() == 0,
            forall|i: int| 0 <= i < r.size() ==> r.tiles@[i] == TileType::Wall(WallType::Cross),
            forall|i: int|
                0 <= i < r.size() ==> !r.revealed_tiles@[i] && !r.visible_tiles@[i]
                    && !r.blocked@[i] && !r.dangerous@[i] && r.tile_content@[i]@.len() == 0,
            !r.only_revealed,
    {
        let size = (width * height) as usize;
        let tiles = vec![TileType::Wall(WallType::Cross); size];
        let rooms: Vec<Rect> = Vec::new();
        let mut tile_content: Vec<Vec<Entity>> = Vec::new();
        for i in 0..size
            invariant
                tile_content@.len() == i,
                forall|j: int| 0 <= j < i ==> tile_content@[j]@.len() == 0,
        {
            tile_content.push(Vec::new());
        }
        GameMap {
            tiles,
            rooms,
            width,
            height,
            revealed_tiles: vec![false; size],
            visible_tiles: vec![false; size],
            blocked: vec![false; size],
            dangerous: vec![false; size],
            tile_content,
            only_revealed: false,
        }
    }
}

/// The shape of a wall from the directions it continues in.
pub fn wall_type_for_code(walls: u32) -> (r: WallType)
    requires
        walls <= 15,
    ensures
        r == wall_type_of(walls as int),
{
    match walls {
        0 => WallType::Pilar,
        1 => WallType::Horizontal,
        2 => WallType::Horizontal,
        3 => WallType::Horizontal,
        4 => WallType::Vertical,
        5 => WallType::BottomRightCorner,
        6 => WallType::BottomLeftCorner,
        7 => WallType::TeeUp,
        8 => WallType::Vertical,
        9 => WallType::TopRightCorner,
        10 => WallType::TopLeftCorner,
        11 => WallType::TeeDown,
        12 => WallType::Vertical,
        13 => WallType::TeeLeft,
        14 => WallType::TeeRight,
        _ => WallType::Cross,
    }
}

} // verus!
