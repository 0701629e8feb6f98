//! Positions on the map and on the screen, and the eight directions.

use vstd::prelude::*;

verus! {

/// A point in two dimensions (map or screen space).
#[derive(Copy, Clone, Debug, PartialEq, Eq, Structural)]
pub struct Point {
    pub x: i32,
    pub y: i32,
}

impl Point {
    pub fn new(x: i32, y: i32) -> (r: Point)
        ensures
            r == (Point { x, y }),
    {
        Point { x, y }
    }
}

/// A position on the map.
#[derive(Copy, Clone, Debug, PartialEq, Eq, Structural)]
pub struct MapPosition {
    pub x: i32,
    pub y: i32,
}

/// A position on the screen.
#[derive(Copy, Clone, Debug, PartialEq, Eq, Structural)]
pub struct ScreenPosition {
    pub x: i32,
    pub y: i32,
}

/// Whether adding the offset to the position stays within `i32`.
pub open spec fn offset_fits(x: i32, y: i32, dx: int, dy: int) -> bool {
    i32::MIN <= x + dx <= i32::MAX && i32::MIN <= y + dy <= i32::MAX
}

impl MapPosition {
    /// The map position as a point.
    pub fn to_point(self) -> (r: Point)
        ensures
            r == (Point { x: self.x, y: self.y }),
    {
        Point::new(self.x, self.y)
    }

    /// The position moved by `(dx, dy)`.
    pub fn add_delta(self, delta: (i32, i32)) -> (r: MapPosition)
        requires
            offset_fits(self.x, self.y, delta.0 as int, delta.1 as int),
        ensures
            r.x == self.x + delta.0,
            r.y == self.y + delta.1,
    {
        MapPosition { x: self.x + delta.0, y: self.y + delta.1 }
    }

    /// The position moved by the point's coordinates.
    pub fn add_point(self, rhs: Point) -> (r: MapPosition)
        requires
            offset_fits(self.x, self.y, rhs.x as int, rhs.y as int),
        ensures
            r.x == self.x + rhs.x,
            r.y == self.y + rhs.y,
    {
        MapPosition { x: self.x + rhs.x, y: self.y + rhs.y }
    }

    /// The position one step in the given direction.
    pub fn add_dir(self, dir: Direction) -> (r: MapPosition)
        requires
            offset_fits(self.x, self.y, dir.dx() as int, dir.dy() as int),
        ensures
            r.x == self.x + dir.dx(),
            r.y == self.y + dir.dy(),
    {
        self.add_delta(dir_to_dx_dy(dir))
    }

    /// The difference of two positions.
    pub fn sub(self, rhs: MapPosition) -> (r: Point)
        requires
            i32::MIN <= self.x - rhs.x <= i32::MAX,
            i32::MIN <= self.y - rhs.y <= i32::MAX,
        ensures
            r.x == self.x - rhs.x,
            r.y == self.y - rhs.y,
    {
        Point::new(self.x - rhs.x, self.y - rhs.y)
    }
}

impl ScreenPosition {
    pub fn to_point(self) -> (r: Point)
        ensures
            r == (Point { x: self.x, y: self.y }),
    {
        Point::new(self.x, self.y)
    }

    pub fn from_point(p: Point) -> (r: ScreenPosition)
        ensures
            r == (ScreenPosition { x: p.x, y: p.y }),
    {
        ScreenPosition { x: p.x, y: p.y }
    }

    pub fn to_tuple(self) -> (r: (i32, i32))
        ensures
            r == (self.x, self.y),
    {
        (self.x, self.y)
    }

    /// The coordinates as indexes; negative ones become 0.
    pub fn to_usize_pair(self) -> (r: (usize, usize))
        ensures
            r.0 == (if self.x > 0 {
                self.x as int
            } else {
                0
            }),
            r.1 == (if self.y > 0 {
                self.y as int
            } else {
                0
            }),
    {
        let x: usize = if self.x > 0 {
            self.x as usize
        } else {
            0
        };
        let y: usize = if self.y > 0 {
            self.y as usize
        } else {
            0
        };
        (x, y)
    }
}

/// The eight directions.
#[derive(PartialEq, Eq, Debug, Copy, Clone, Structural)]
pub enum Direction {
    West,
    East,
    South,
    SouthWest,
    SouthEast,
    North,
    NorthWest,
    NorthEast,
}

impl Direction {
    /// The horizontal step of the direction.
    pub open spec fn dx(self) -> i32 {
        match self {
            Direction::West | Direction::SouthWest | Direction::NorthWest => -1i32,
            Direction::East | Direction::SouthEast | Direction::NorthEast => 1i32,
            _ => 0i32,
        }
    }

    /// The vertical step of the direction.
    pub open spec fn dy(self) -> i32 {
        match self {
            Direction::North | Direction::NorthWest | Direction::NorthEast => -1i32,
            Direction::South | Direction::SouthWest | Direction::SouthEast => 1i32,
            _ => 0i32,
        }
    }

    /// All directions, clockwise from north.
    pub open spec fn spec_all() -> Seq<Direction> {
        seq![
            Direction::North,
            Direction::NorthEast,
            Direction::East,
            Direction::SouthEast,
            Direction::South,
            Direction::SouthWest,
            Direction::West,
            Direction::NorthWest,
        ]
    }

    /// All directions, clockwise from north.
    pub fn iter() -> (r: Vec<Direction>)
        ensures
            r@ == Self::spec_all(),
    {
        vec![
            Direction::North,
            Direction::NorthEast,
            Direction::East,
            Direction::SouthEast,
            Direction::South,
            Direction::SouthWest,
            Direction::West,
            Direction::NorthWest,
        ]
    }

    /// Whether `(dx, dy)` is the step of some direction.
    pub open spec fn is_step(dx: i32, dy: i32) -> bool {
        -1 <= dx <= 1 && -1 <= dy <= 1 && !(dx == 0 && dy == 0)
    }

    /// The direction of a step of one tile.
    pub fn from_delta(coord: (i32, i32)) -> (r: Direction)
        requires
            Self::is_step(coord.0, coord.1),
        ensures
            r.dx() == coord.0,
            r.dy() == coord.1,
    {
        match coord {
            (-1, 0) => Direction::West,
            (1, 0) => Direction::East,
            (0, 1) => Direction::South,
            (-1, 1) => Direction::SouthWest,
            (1, 1) => Direction::SouthEast,
            (0, -1) => Direction::North,
            (-1, -1) => Direction::NorthWest,
            _ => Direction::NorthEast,
        }
    }

    /// The direction as a point holding its step.
    pub fn to_point(self) -> (r: Point)
        ensures
            r.x == self.dx(),
            r.y == self.dy(),
    {
        let (dx, dy) = dir_to_dx_dy(self);
        Point::new(dx, dy)
    }
}

/// The step `(dx, dy)` of a direction.
pub fn dir_to_dx_dy(dir: Direction) -> (r: (i32, i32))
    ensures
        r == (dir.dx(), dir.dy()),
{
    match dir {
        Direction::West => (-1, 0),
        Direction::East => (1, 0),
        Direction::South => (0, 1),
        Direction::SouthWest => (-1, 1),
        Direction::SouthEast => (1, 1),
        Direction::North => (0, -1),
        Direction::NorthWest => (-1, -1),
        Direction::NorthEast => (1, -1),
    }
}

/// The point moved one step in the direction.
pub fn point_add_dir(p: Point, dir: Direction) -> (r: Point)
    requires
        offset_fits(p.x, p.y, dir.dx() as int, dir.dy() as int),
    ensures
        r.x == p.x + dir.dx(),
        r.y == p.y + dir.dy(),
{
    let d = dir.to_point();
    Point::new(p.x + d.x, p.y + d.y)
}

/// A direction's step is a step of one tile, and the direction is the one
/// that step gives back.
pub proof fn lemma_direction_round_trip(dir: Direction)
    ensures
        Direction::is_step(dir.dx(), dir.dy()),
        forall|d: Direction| d.dx() == dir.dx() && d.dy() == dir.dy() ==> d == dir,
{
}

/// Every step of one tile is the step of exactly one direction, and the
/// eight directions of `iter` are all different.
pub proof fn lemma_directions_distinct()
    ensures
        forall|i: int, j: int|
            0 <= i < j < 8 ==> Direction::spec_all()[i] != Direction::spec_all()[j],
        forall|dx: i32, dy: i32|
            Direction::is_step(dx, dy) ==> exists|i: int|
                0 <= i < 8 && (#[trigger] Direction::spec_all()[i]).dx() == dx
                    && Direction::spec_all()[i].dy() == dy,
{
    let all = Direction::spec_all();
    assert forall|dx: i32, dy: i32| Direction::is_step(dx, dy) implies exists|i: int|
        0 <= i < 8 && (#[trigger] Direction::spec_all()[i]).dx() == dx
            && Direction::spec_all()[i].dy() == dy by {
        if dx == 0 && dy == -1 {
            assert(all[0].dx() == dx && all[0].dy() == dy);
        } else if dx == 1 && dy == -1 {
            assert(all[1].dx() == dx && all[1].dy() == dy);
        } else if dx == 1 && dy == 0 {
            assert(all[2].dx() == dx && all[2].dy() == dy);
        } else if dx == 1 && dy == 1 {
            assert(all[3].dx() == dx && all[3].dy() == dy);
        } else if dx == 0 && dy == 1 {
            assert(all[4].dx() == dx && all[4].dy() == dy);
        } else if dx == -1 && dy == 1 {
            assert(all[5].dx() == dx && all[5].dy() == dy);
        } else if dx == -1 && dy == 0 {
            assert(all[6].dx() == dx && all[6].dy() == dy);
        } else {
            assert(all[7].dx() == dx && all[7].dy() == dy);
        }
    }
}

} // verus!
