//! Keeping the map's per-tile records up to date: what blocks a tile,
//! what stands on it, what the player sees, and where a path may step.

use crate::explore::neighbour;
use crate::map::{lemma_idx_in_range, lemma_idx_of_index, GameMap};
use crate::positions::{Direction, MapPosition, Point};
use vstd::prelude::*;

verus! {

/// The cost of a step in the direction, in hundredths of a straight step:
/// a diagonal step costs a little more.
pub open spec fn step_cost(d: Direction) -> u32 {
    if d.dx() == 0 || d.dy() == 0 {
        100
    } else {
        101
    }
}

/// The points that lie on a map of width `w` and height `h`, as map
/// positions, in their order.
pub open spec fn points_on_map(points: Seq<Point>, w: int, h: int) -> Seq<MapPosition>
    decreases points.len(),
{
    if points.len() == 0 {
        Seq::empty()
    } else {
        let rest = points_on_map(points.drop_last(), w, h);
        let p = points.last();
        if 0 <= p.x < w && 0 <= p.y < h {
            rest.push(MapPosition { x: p.x, y: p.y })
        } else {
            rest
        }
    }
}

impl<Entity> GameMap<Entity> {
    /// The exits from `p` in the directions `dirs`, in their order: the
    /// index of each neighbour that a path may step onto, with the step's
    /// cost.
    pub open spec fn exits_along(&self, p: MapPosition, dirs: Seq<Direction>) -> Seq<(usize, u32)>
        decreases dirs.len(),
    {
        if dirs.len() == 0 {
            Seq::empty()
        } else {
            let rest = self.exits_along(p, dirs.drop_last());
            let q = neighbour(p, dirs.last());
            if self.spec_exit_valid(q.x as int, q.y as int) {
                rest.push((self.spec_idx(q.x as int, q.y as int) as usize, step_cost(dirs.last())))
            } else {
                rest
            }
        }
    }

    /// The tiles a path may step to from the tile `idx`, clockwise from
    /// north, each with the cost of the step: 100 straight, 101 diagonally.
    pub fn get_available_exits(&self, idx: usize) -> (exits: Vec<(usize, u32)>)
        requires
            self.wf(),
            idx < self.size(),
        ensures
            exits@ == self.exits_along(
                MapPosition {
                    x: (idx as int % self.width as int) as i32,
                    y: (idx as int / self.width as int) as i32,
                },
                Direction::spec_all(),
            ),
    {
        proof {
            lemma_idx_of_index(self.width as int, self.height as int, idx as int);
        }
        let p = self.index_to_point2d(idx);
        let pos = MapPosition { x: p.x, y: p.y };
        proof {
            crate::map::lemma_cell_of_idx(self.width as int, p.x as int, p.y as int);
        }
        let dirs = Direction::iter();
        let mut exits: Vec<(usize, u32)> = Vec::new();
        for k in 0..8
            invariant
                self.wf(),
                self.spec_in_bounds(pos.x as int, pos.y as int),
                dirs@ == Direction::spec_all(),
                exits@ == self.exits_along(pos, dirs@.take(k as int)),
        {
            let dir = dirs[k];
            let np = pos.add_dir(dir);
            assert(np == neighbour(pos, dir));
            assert(dirs@.take(k as int + 1).drop_last() == dirs@.take(k as int));
            if self.is_exit_valid(np.x, np.y) {
                let (dx, dy) = crate::positions::dir_to_dx_dy(dir);
                let cost: u32 = if dx == 0 || dy == 0 {
                    100
                } else {
                    101
                };
                exits.push((self.idx_of(np.x, np.y), cost));
            }
        }
        assert(dirs@.take(8) == dirs@);
        exits
    }

    /// Records that an entity that blocks its tile stands at `pos`: the
    /// tile is blocked, lists the entity, and is dangerous exactly when the
    /// entity is a monster.
    pub fn index_blocker(&mut self, pos: MapPosition, entity: Entity, is_monster: bool)
        requires
            old(self).wf(),
            old(self).spec_in_bounds(pos.x as int, pos.y as int),
        ensures
            ({
                let i = old(self).spec_idx(pos.x as int, pos.y as int);
                &&& final(self).blocked@ == old(self).blocked@.update(i, true)
                &&& final(self).dangerous@ == old(self).dangerous@.update(i, is_monster)
                &&& final(self).tile_content@.len() == old(self).tile_content@.len()
                &&& final(self).tile_content@[i]@ == old(self).tile_content@[i]@.push(entity)
                &&& forall|j: int|
                    0 <= j < old(self).tile_content@.len() && j != i
                        ==> #[trigger] final(self).tile_content@[j] == old(self).tile_content@[j]
            }),
            *final(self) == (GameMap {
                blocked: final(self).blocked,
                dangerous: final(self).dangerous,
                tile_content: final(self).tile_content,
                ..*old(self)
            }),
    {
        let idx = self.idx_of(pos.x, pos.y);
        self.blocked.set(idx, true);
        self.tile_content[idx].push(entity);
        self.dangerous.set(idx, is_monster);
    }

    /// Frees the tile at `pos` of what blocked it: it is neither blocked
    /// nor dangerous any more.
    pub fn clear_blocker(&mut self, pos: MapPosition)
        requires
            old(self).wf(),
            old(self).spec_in_bounds(pos.x as int, pos.y as int),
        ensures
            ({
                let i = old(self).spec_idx(pos.x as int, pos.y as int);
                &&& final(self).blocked@ == old(self).blocked@.update(i, false)
                &&& final(self).dangerous@ == old(self).dangerous@.update(i, false)
            }),
            *final(self) == (GameMap {
                blocked: final(self).blocked,
                dangerous: final(self).dangerous,
                ..*old(self)
            }),
    {
        let idx = self.idx_of(pos.x, pos.y);
        self.blocked.set(idx, false);
        self.dangerous.set(idx, false);
    }

    /// Moves a monster from tile `old_idx` to tile `new_idx` unless the new
    /// tile is blocked; returns whether it moved. A move frees the old tile
    /// and blocks the new one, and the danger moves with the monster.
    pub fn move_blocker(&mut self, old_idx: usize, new_idx: usize) -> (moved: bool)
        requires
            old(self).wf(),
            old_idx < old(self).size(),
            new_idx < old(self).size(),
        ensures
            moved == !old(self).blocked@[new_idx as int],
            !moved ==> *final(self) == *old(self),
            moved ==> final(self).blocked@ == old(self).blocked@.update(old_idx as int, false).update(
                new_idx as int,
                true,
            ),
            moved ==> final(self).dangerous@ == old(self).dangerous@.update(
                old_idx as int,
                false,
            ).update(new_idx as int, true),
            *final(self) == (GameMap {
                blocked: final(self).blocked,
                dangerous: final(self).dangerous,
                ..*old(self)
            }),
    {
        if !self.blocked[new_idx] {
            self.blocked.set(old_idx, false);
            self.blocked.set(new_idx, true);
            self.dangerous.set(old_idx, false);
            self.dangerous.set(new_idx, true);
            true
        } else {
            false
        }
    }

    /// Shows the player exactly the positions in `visible`: they become
    /// visible and revealed, every other tile invisible. Returns whether
    /// any of them is dangerous.
    pub fn reveal_visible(&mut self, visible: &Vec<MapPosition>) -> (saw_danger: bool)
        requires
            old(self).wf(),
            forall|k: int|
                0 <= k < visible@.len() ==> old(self).spec_in_bounds(
                    #[trigger] visible@[k].x as int,
                    visible@[k].y as int,
                ),
        ensures
            final(self).wf(),
            forall|i: int|
                0 <= i < final(self).size() ==> (#[trigger] final(self).visible_tiles@[i] <==> exists|
                    k: int,
                |
                    0 <= k < visible@.len() && old(self).spec_idx(
                        visible@[k].x as int,
                        visible@[k].y as int,
                    ) == i),
            forall|i: int|
                0 <= i < final(self).size() ==> (#[trigger] final(self).revealed_tiles@[i] <==> (
                old(self).revealed_tiles@[i] || final(self).visible_tiles@[i])),
            saw_danger == exists|k: int|
                0 <= k < visible@.len() && #[trigger] old(self).dangerous@[old(self).spec_idx(
                    visible@[k].x as int,
                    visible@[k].y as int,
                )],
            *final(self) == (GameMap {
                visible_tiles: final(self).visible_tiles,
                revealed_tiles: final(self).revealed_tiles,
                ..*old(self)
            }),
    {
        let n = self.visible_tiles.len();
        for i in 0..n
            invariant
                self.wf(),
                n == self.size(),
                *self == (GameMap { visible_tiles: self.visible_tiles, ..*old(self) }),
                forall|j: int| 0 <= j < i ==> !self.visible_tiles@[j],
        {
            self.visible_tiles.set(i, false);
        }
        let ghost cleared = self.visible_tiles@;
        let mut saw_danger = false;
        for k in 0..visible.len()
            invariant
                self.wf(),
                n == self.size(),
                forall|j: int|
                    0 <= j < visible@.len() ==> old(self).spec_in_bounds(
                        #[trigger] visible@[j].x as int,
                        visible@[j].y as int,
                    ),
                *self == (GameMap {
                    visible_tiles: self.visible_tiles,
                    revealed_tiles: self.revealed_tiles,
                    ..*old(self)
                }),
                forall|i: int|
                    0 <= i < n ==> (#[trigger] self.visible_tiles@[i] <==> exists|j: int|
                        0 <= j < k && old(self).spec_idx(
                            visible@[j].x as int,
                            visible@[j].y as int,
                        ) == i),
                forall|i: int|
                    0 <= i < n ==> (#[trigger] self.revealed_tiles@[i] <==> (
                    old(self).revealed_tiles@[i] || self.visible_tiles@[i])),
                saw_danger == exists|j: int|
                    0 <= j < k && #[trigger] old(self).dangerous@[old(self).spec_idx(
                        visible@[j].x as int,
                        visible@[j].y as int,
                    )],
        {
            let vis = visible[k];
            let idx = self.idx_of(vis.x, vis.y);
            self.revealed_tiles.set(idx, true);
            self.visible_tiles.set(idx, true);
            if self.dangerous[idx] {
                saw_danger = true;
            }
            proof {
                assert forall|i: int|
                    0 <= i < n implies (#[trigger] self.visible_tiles@[i] <==> exists|j: int|
                    0 <= j < k + 1 && old(self).spec_idx(
                        visible@[j].x as int,
                        visible@[j].y as int,
                    ) == i) by {
                    if i == idx {
                        assert(old(self).spec_idx(visible@[k as int].x as int, visible@[k as int].y as int) == i);
                    }
                }
                if self.dangerous@[idx as int] {
                    assert(old(self).dangerous@[old(self).spec_idx(
                        visible@[k as int].x as int,
                        visible@[k as int].y as int,
                    )]);
                }
            }
        }
        saw_danger
    }

    /// The points that lie on the map, as map positions, in their order.
    pub fn filter_on_map(&self, points: &Vec<Point>) -> (r: Vec<MapPosition>)
        ensures
            r@ == points_on_map(points@, self.width as int, self.height as int),
    {
        let mut r: Vec<MapPosition> = Vec::new();
        for k in 0..points.len()
            invariant
                r@ == points_on_map(points@.take(k as int), self.width as int, self.height as int),
        {
            let p = points[k];
            assert(points@.take(k as int + 1).drop_last() == points@.take(k as int));
            if p.x >= 0 && p.x < self.width && p.y >= 0 && p.y < self.height {
                r.push(MapPosition { x: p.x, y: p.y });
            }
        }
        assert(points@.take(points@.len() as int) == points@);
        r
    }
}

} // verus!
