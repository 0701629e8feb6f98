//! Searching the map for the nearest place from which the player can see
//! something new.

use crate::map::GameMap;
use crate::positions::{Direction, MapPosition};
use std::collections::VecDeque;
use vstd::prelude::*;

verus! {

/// Whether `b` is one of the eight positions around `a`.
pub open spec fn adjacent(a: MapPosition, b: MapPosition) -> bool {
    let dx = b.x - a.x;
    let dy = b.y - a.y;
    -1 <= dx <= 1 && -1 <= dy <= 1 && !(dx == 0 && dy == 0)
}

/// The position one step from `p` in the direction `d`.
pub open spec fn neighbour(p: MapPosition, d: Direction) -> MapPosition {
    MapPosition { x: (p.x + d.dx()) as i32, y: (p.y + d.dy()) as i32 }
}

/// Each position around `p` is one step from it in one of the eight
/// directions.
pub proof fn lemma_adjacent_is_neighbour(p: MapPosition, q: MapPosition) -> (j: int)
    requires
        adjacent(p, q),
    ensures
        0 <= j < 8,
        neighbour(p, Direction::spec_all()[j]) == q,
{
    let all = Direction::spec_all();
    let (dx, dy) = (q.x - p.x, q.y - p.y);
    let j = if dx == 0 && dy == -1 {
        0
    } else if dx == 1 && dy == -1 {
        1
    } else if dx == 1 && dy == 0 {
        2
    } else if dx == 1 && dy == 1 {
        3
    } else if dx == 0 && dy == 1 {
        4
    } else if dx == -1 && dy == 1 {
        5
    } else if dx == -1 && dy == 0 {
        6
    } else {
        7
    };
    assert(neighbour(p, all[j]).x == q.x);
    assert(neighbour(p, all[j]).y == q.y);
    j
}

impl<Entity> GameMap<Entity> {
    /// Whether `p` is open ground that the player has not seen yet.
    pub open spec fn open_unknown(&self, p: MapPosition) -> bool {
        &&& !self.spec_solid(p.x as int, p.y as int)
        &&& !self.revealed_tiles@[self.spec_idx(p.x as int, p.y as int)]
    }

    /// Whether some position around `p` is open ground not seen yet.
    pub open spec fn borders_unknown(&self, p: MapPosition) -> bool {
        exists|q: MapPosition| #[trigger] adjacent(p, q) && self.open_unknown(q)
    }

    /// A walk over the map: each position one step from the one before,
    /// and every position after the first open.
    pub open spec fn is_walk(&self, path: Seq<MapPosition>) -> bool {
        &&& path.len() >= 1
        &&& forall|k: int|
            1 <= k < path.len() ==> adjacent(path[k - 1], #[trigger] path[k]) && !self.spec_solid(
                path[k].x as int,
                path[k].y as int,
            )
    }

    /// Whether a walk leads from `from` to `to`.
    pub open spec fn connected(&self, from: MapPosition, to: MapPosition) -> bool {
        exists|path: Seq<MapPosition>| #[trigger] self.is_walk(path) && path[0] == from && path.last() == to
    }

    /// Whether a walk of `n` steps leads from `from` to `to`.
    pub open spec fn reach_in(&self, from: MapPosition, to: MapPosition, n: nat) -> bool {
        exists|path: Seq<MapPosition>|
            #[trigger] self.is_walk(path) && path.len() == n + 1 && path[0] == from && path.last()
                == to
    }

    /// `p` borders unseen open ground and is the nearest such position to
    /// `from`: some walk of `d` steps reaches it, and no position that a
    /// shorter walk reaches borders unseen open ground.
    pub open spec fn nearest_unknown_border(&self, from: MapPosition, p: MapPosition) -> bool {
        &&& self.borders_unknown(p)
        &&& exists|d: nat|
            #![trigger self.reach_in(from, p, d)]
            self.reach_in(from, p, d) && forall|q: MapPosition, m: nat|
                m < d && #[trigger] self.reach_in(from, q, m) ==> !self.borders_unknown(q)
    }

    /// Whether `q` waits in the queue with a distance of at most `bound`.
    spec fn queued_within(s: SearchState, q: MapPosition, bound: nat) -> bool {
        exists|k: int| 0 <= k < s.queue.len() && s.queue[k] == q && s.qd[k] <= bound
    }

    /// The neighbour `q` is solid, or seen and either visited at a distance
    /// of at most `bound` or waiting in the queue with such a distance.
    spec fn neighbour_done(&self, s: SearchState, q: MapPosition, bound: nat) -> bool {
        let i = self.spec_idx(q.x as int, q.y as int);
        self.spec_solid(q.x as int, q.y as int) || (self.revealed_tiles@[i] && ((s.visited[i]
            && s.label[i] <= bound) || Self::queued_within(s, q, bound)))
    }

    /// Every neighbour of `p` is done within one step more than `dist`.
    spec fn closed_in(&self, s: SearchState, p: MapPosition, dist: nat) -> bool {
        forall|q: MapPosition| #[trigger] adjacent(p, q) ==> self.neighbour_done(s, q, dist + 1)
    }

    /// The queue lies on the map; each position in it is reached by a walk
    /// of its distance; the distances do not decrease and lie between the
    /// level and one more.
    #[verifier::opaque]
    spec fn queue_ok(&self, start: MapPosition, s: SearchState) -> bool {
        &&& s.qd.len() == s.queue.len()
        &&& forall|k: int|
            0 <= k < s.queue.len() ==> self.spec_in_bounds(s.queue[k].x as int, s.queue[k].y as int)
                && self.reach_in(start, #[trigger] s.queue[k], s.qd[k]) && s.level <= s.qd[k]
                <= s.level + 1
        &&& forall|a: int, b: int| 0 <= a <= b < s.qd.len() ==> #[trigger] s.qd[a] <= #[trigger] s.qd[b]
    }

    /// Every position marked in `members` has a distance of at most the
    /// level, is reached by a walk of that distance, and is closed.
    #[verifier::opaque]
    spec fn members_closed(&self, start: MapPosition, members: Seq<bool>, s: SearchState) -> bool {
        forall|p: MapPosition|
            self.spec_in_bounds(p.x as int, p.y as int) && #[trigger] members[self.spec_idx(
                p.x as int,
                p.y as int,
            )] ==> {
                let d = s.label[self.spec_idx(p.x as int, p.y as int)];
                &&& d <= s.level
                &&& self.reach_in(start, p, d)
                &&& self.closed_in(s, p, d)
            }
    }

    /// The start is visited at distance zero, or it is the first in the
    /// queue, at distance zero, and nothing is visited yet.
    spec fn start_ok(&self, start: MapPosition, s: SearchState) -> bool {
        let i = self.spec_idx(start.x as int, start.y as int);
        (s.visited[i] && s.label[i] == 0) || (!s.visited[i] && s.queue.len() > 0 && s.queue[0]
            == start && s.qd[0] == 0 && s.level == 0)
    }

    /// The state the search keeps.
    spec fn search_state(&self, start: MapPosition, s: SearchState) -> bool {
        &&& s.visited.len() == self.size()
        &&& s.label.len() == self.size()
        &&& self.queue_ok(start, s)
        &&& self.members_closed(start, s.visited, s)
        &&& self.start_ok(start, s)
    }

    /// A walk of no steps reaches its start.
    proof fn lemma_reach_self(&self, p: MapPosition)
        ensures
            self.reach_in(p, p, 0),
    {
        let path = seq![p];
        assert(self.is_walk(path));
    }

    /// A walk reaching a position shows the two are connected.
    proof fn lemma_reach_connected(&self, from: MapPosition, to: MapPosition, n: nat)
        requires
            self.reach_in(from, to, n),
        ensures
            self.connected(from, to),
    {
        let path = choose|path: Seq<MapPosition>|
            #[trigger] self.is_walk(path) && path.len() == n + 1 && path[0] == from && path.last()
                == to;
        assert(self.is_walk(path) && path[0] == from && path.last() == to);
    }

    /// A walk extends by one open step.
    proof fn lemma_reach_step(&self, from: MapPosition, p: MapPosition, q: MapPosition, n: nat)
        requires
            self.reach_in(from, p, n),
            adjacent(p, q),
            !self.spec_solid(q.x as int, q.y as int),
        ensures
            self.reach_in(from, q, n + 1),
    {
        let path = choose|path: Seq<MapPosition>|
            #[trigger] self.is_walk(path) && path.len() == n + 1 && path[0] == from && path.last()
                == p;
        let longer = path.push(q);
        assert forall|k: int| 1 <= k < longer.len() implies adjacent(
            longer[k - 1],
            #[trigger] longer[k],
        ) && !self.spec_solid(longer[k].x as int, longer[k].y as int) by {
            if k < path.len() {
                assert(longer[k] == path[k]);
                assert(longer[k - 1] == path[k - 1]);
            }
        }
        assert(self.is_walk(longer));
    }

    /// The walk without its last step.
    proof fn lemma_walk_prefix(&self, path: Seq<MapPosition>)
        requires
            self.is_walk(path),
            path.len() > 1,
        ensures
            self.is_walk(path.drop_last()),
            adjacent(path.drop_last().last(), path.last()),
            !self.spec_solid(path.last().x as int, path.last().y as int),
    {
        let shorter = path.drop_last();
        assert forall|k: int| 1 <= k < shorter.len() implies adjacent(
            shorter[k - 1],
            #[trigger] shorter[k],
        ) && !self.spec_solid(shorter[k].x as int, shorter[k].y as int) by {
            assert(shorter[k] == path[k]);
            assert(shorter[k - 1] == path[k - 1]);
        }
        assert(adjacent(path[path.len() - 2], path[path.len() - 1]));
    }

    /// Closure survives when more is visited, labels of what was visited
    /// stay, and what left the queue was visited within its distance.
    proof fn lemma_closed_mono(&self, s1: SearchState, s2: SearchState, p: MapPosition, d: nat)
        requires
            self.wf(),
            s1.visited.len() == self.size(),
            s2.visited.len() == self.size(),
            s1.label.len() == self.size(),
            s2.label.len() == self.size(),
            self.closed_in(s1, p, d),
            forall|i: int|
                0 <= i < s1.visited.len() && s1.visited[i] ==> s2.visited[i] && s2.label[i]
                    == s1.label[i],
            forall|q: MapPosition, b: nat|
                #[trigger] Self::queued_within(s1, q, b) ==> (s2.visited[self.spec_idx(
                    q.x as int,
                    q.y as int,
                )] && s2.label[self.spec_idx(q.x as int, q.y as int)] <= b)
                    || Self::queued_within(s2, q, b),
        ensures
            self.closed_in(s2, p, d),
    {
        assert forall|q: MapPosition| #[trigger] adjacent(p, q) implies self.neighbour_done(
            s2,
            q,
            d + 1,
        ) by {
            assert(self.neighbour_done(s1, q, d + 1));
            if !self.spec_solid(q.x as int, q.y as int) {
                crate::map::lemma_idx_in_range(
                    self.width as int,
                    self.height as int,
                    q.x as int,
                    q.y as int,
                );
            }
        }
    }

    /// The search starts with only `start` in its queue, at distance zero.
    proof fn lemma_search_start(&self, start: MapPosition, s: SearchState)
        requires
            self.wf(),
            self.spec_in_bounds(start.x as int, start.y as int),
            s.visited.len() == self.size(),
            s.label.len() == self.size(),
            forall|i: int| 0 <= i < s.visited.len() ==> !s.visited[i],
            s.queue == seq![start],
            s.qd == seq![0nat],
            s.level == 0,
        ensures
            self.search_state(start, s),
    {
        self.lemma_reach_self(start);
        crate::map::lemma_idx_in_range(
            self.width as int,
            self.height as int,
            start.x as int,
            start.y as int,
        );
        reveal(GameMap::queue_ok);
        reveal(GameMap::members_closed);
        assert(s.queue[0] == start);
        assert forall|p: MapPosition|
            self.spec_in_bounds(p.x as int, p.y as int) implies !#[trigger] s.visited[self.spec_idx(
            p.x as int,
            p.y as int,
        )] by {
            crate::map::lemma_idx_in_range(
                self.width as int,
                self.height as int,
                p.x as int,
                p.y as int,
            );
        }
    }

    /// When the queue is empty, every position a walk reaches from the
    /// start is visited.
    proof fn lemma_walk_visited(&self, start: MapPosition, s: SearchState, path: Seq<MapPosition>)
        requires
            self.wf(),
            self.spec_in_bounds(start.x as int, start.y as int),
            self.search_state(start, s),
            s.queue.len() == 0,
            self.is_walk(path),
            path[0] == start,
        ensures
            self.spec_in_bounds(path.last().x as int, path.last().y as int),
            s.visited[self.spec_idx(path.last().x as int, path.last().y as int)],
        decreases path.len(),
    {
        if path.len() > 1 {
            let shorter = path.drop_last();
            self.lemma_walk_prefix(path);
            self.lemma_walk_visited(start, s, shorter);
            let p = shorter.last();
            let q = path.last();
            reveal(GameMap::members_closed);
            let d = s.label[self.spec_idx(p.x as int, p.y as int)];
            assert(self.closed_in(s, p, d));
            assert(self.neighbour_done(s, q, d + 1));
        }
    }

    /// When the queue runs empty, no position a walk reaches from `start`
    /// has open ground not seen around it.
    proof fn lemma_search_exhausted(&self, start: MapPosition, s: SearchState)
        requires
            self.wf(),
            self.spec_in_bounds(start.x as int, start.y as int),
            self.search_state(start, s),
            s.queue.len() == 0,
        ensures
            forall|p: MapPosition| #[trigger] self.connected(start, p) ==> !self.borders_unknown(p),
    {
        assert forall|p: MapPosition| #[trigger] self.connected(start, p) implies !self.borders_unknown(
            p,
        ) by {
            let path = choose|path: Seq<MapPosition>|
                #[trigger] self.is_walk(path) && path[0] == start && path.last() == p;
            self.lemma_walk_visited(start, s, path);
            reveal(GameMap::members_closed);
            let d = s.label[self.spec_idx(p.x as int, p.y as int)];
            assert(self.closed_in(s, p, d));
            assert forall|q: MapPosition| #[trigger] adjacent(p, q) implies !self.open_unknown(q) by {
                assert(self.neighbour_done(s, q, d + 1));
            }
        }
    }

    /// The state after the first position is taken off the queue: the level
    /// rises to its distance.
    spec fn popped(s: SearchState) -> SearchState {
        SearchState {
            queue: s.queue.subrange(1, s.queue.len() as int),
            qd: s.qd.subrange(1, s.qd.len() as int),
            level: s.qd[0],
            ..s
        }
    }

    /// Taking the first position off the queue: it lies on the map and is
    /// reached by a walk of its distance, what is left is in order at the
    /// new level, and what waited is that position or still waits.
    proof fn lemma_search_popped(&self, start: MapPosition, s: SearchState)
        requires
            s.queue.len() > 0,
            self.queue_ok(start, s),
        ensures
            self.spec_in_bounds(s.queue[0].x as int, s.queue[0].y as int),
            self.reach_in(start, s.queue[0], s.qd[0]),
            s.level <= s.qd[0] <= s.level + 1,
            self.queue_ok(start, Self::popped(s)),
            forall|q: MapPosition, b: nat| #[trigger]
                Self::queued_within(s, q, b) ==> (q == s.queue[0] && s.qd[0] <= b)
                    || Self::queued_within(Self::popped(s), q, b),
            forall|k: int| 0 <= k < Self::popped(s).qd.len() ==> s.qd[0] <= #[trigger] Self::popped(s).qd[k]
                && Self::popped(s).qd[k] <= s.qd[0] + 1,
            Self::popped(s).qd.len() == Self::popped(s).queue.len(),
    {
        reveal(GameMap::queue_ok);
        let r = Self::popped(s);
        assert(self.reach_in(start, s.queue[0], s.qd[0]));
        assert forall|k: int| 0 <= k < r.queue.len() implies self.spec_in_bounds(
            r.queue[k].x as int,
            r.queue[k].y as int,
        ) && self.reach_in(start, #[trigger] r.queue[k], r.qd[k]) && r.level <= r.qd[k] <= r.level
            + 1 by {
            assert(r.queue[k] == s.queue[k + 1]);
            assert(r.qd[k] == s.qd[k + 1]);
            assert(s.qd[0] <= s.qd[k + 1]);
        }
        assert forall|a: int, b: int| 0 <= a <= b < r.qd.len() implies #[trigger] r.qd[a]
            <= #[trigger] r.qd[b] by {
            assert(r.qd[a] == s.qd[a + 1]);
            assert(r.qd[b] == s.qd[b + 1]);
        }
        assert(s.level <= s.qd[0]);
        assert forall|k: int| 0 <= k < r.qd.len() implies s.qd[0] <= #[trigger] r.qd[k] && r.qd[k]
            <= s.qd[0] + 1 by {
            assert(r.qd[k] == s.qd[k + 1]);
            assert(s.queue[k + 1] == r.queue[k]);
            assert(s.level <= s.qd[k + 1] <= s.level + 1);
        }
        assert forall|q: MapPosition, b: nat| #[trigger]
            Self::queued_within(s, q, b) implies (q == s.queue[0] && s.qd[0] <= b)
            || Self::queued_within(r, q, b) by {
            let k = choose|k: int| 0 <= k < s.queue.len() && s.queue[k] == q && s.qd[k] <= b;
            if k > 0 {
                assert(r.queue[k - 1] == q && r.qd[k - 1] == s.qd[k]);
            }
        }
    }

    /// Dropping a position already visited off the queue keeps the state.
    proof fn lemma_search_skip(&self, start: MapPosition, s: SearchState)
        requires
            self.wf(),
            s.queue.len() > 0,
            self.search_state(start, s),
            self.spec_in_bounds(start.x as int, start.y as int),
            self.spec_in_bounds(s.queue[0].x as int, s.queue[0].y as int),
            s.visited[self.spec_idx(s.queue[0].x as int, s.queue[0].y as int)],
            s.level <= s.qd[0],
            forall|q: MapPosition, b: nat| #[trigger]
                Self::queued_within(s, q, b) ==> (q == s.queue[0] && s.qd[0] <= b)
                    || Self::queued_within(Self::popped(s), q, b),
            self.queue_ok(start, Self::popped(s)),
        ensures
            self.search_state(start, Self::popped(s)),
    {
        let r = Self::popped(s);
        reveal(GameMap::members_closed);
        let q0 = s.queue[0];
        assert(s.label[self.spec_idx(q0.x as int, q0.y as int)] <= s.level);
        assert forall|p: MapPosition|
            self.spec_in_bounds(p.x as int, p.y as int) && #[trigger] r.visited[self.spec_idx(
                p.x as int,
                p.y as int,
            )] implies {
            let d = r.label[self.spec_idx(p.x as int, p.y as int)];
            &&& d <= r.level
            &&& self.reach_in(start, p, d)
            &&& self.closed_in(r, p, d)
        } by {
            let d = s.label[self.spec_idx(p.x as int, p.y as int)];
            self.lemma_closed_mono(s, r, p, d);
        }
    }

    /// The state after the position taken off the queue is marked visited
    /// at its distance.
    spec fn marked(s: SearchState, idx: int) -> SearchState {
        SearchState {
            visited: s.visited.update(idx, true),
            label: s.label.update(idx, s.qd[0]),
            ..Self::popped(s)
        }
    }

    /// Marking the position taken off the queue as visited: everything
    /// visited before is still reached and closed, and the start is still
    /// accounted for.
    proof fn lemma_search_marked(&self, start: MapPosition, s: SearchState, idx: int)
        requires
            self.wf(),
            s.queue.len() > 0,
            self.search_state(start, s),
            self.spec_in_bounds(start.x as int, start.y as int),
            self.spec_in_bounds(s.queue[0].x as int, s.queue[0].y as int),
            idx == self.spec_idx(s.queue[0].x as int, s.queue[0].y as int),
            !s.visited[idx],
            s.level <= s.qd[0],
            forall|q: MapPosition, b: nat| #[trigger]
                Self::queued_within(s, q, b) ==> (q == s.queue[0] && s.qd[0] <= b)
                    || Self::queued_within(Self::popped(s), q, b),
            self.queue_ok(start, Self::popped(s)),
        ensures
            self.queue_ok(start, Self::marked(s, idx)),
            self.members_closed(start, s.visited, Self::marked(s, idx)),
            Self::marked(s, idx).visited[self.spec_idx(start.x as int, start.y as int)],
            Self::marked(s, idx).label[self.spec_idx(start.x as int, start.y as int)] == 0,
            s.qd[0] >= 1 ==> s.visited[self.spec_idx(start.x as int, start.y as int)],
    {
        let m = Self::marked(s, idx);
        crate::map::lemma_idx_in_range(
            self.width as int,
            self.height as int,
            s.queue[0].x as int,
            s.queue[0].y as int,
        );
        crate::map::lemma_idx_in_range(
            self.width as int,
            self.height as int,
            start.x as int,
            start.y as int,
        );
        reveal(GameMap::members_closed);
        reveal(GameMap::queue_ok);
        let q0 = s.queue[0];
        let pp = Self::popped(s);
        assert(m.queue == pp.queue && m.qd == pp.qd && m.level == pp.level);
        assert forall|k: int| 0 <= k < m.queue.len() implies self.spec_in_bounds(
            m.queue[k].x as int,
            m.queue[k].y as int,
        ) && self.reach_in(start, #[trigger] m.queue[k], m.qd[k]) && m.level <= m.qd[k] <= m.level
            + 1 by {
            assert(m.queue[k] == pp.queue[k]);
        }
        assert(self.queue_ok(start, m));
        assert forall|q: MapPosition, b: nat| #[trigger]
            Self::queued_within(s, q, b) implies (m.visited[self.spec_idx(q.x as int, q.y as int)]
            && m.label[self.spec_idx(q.x as int, q.y as int)] <= b) || Self::queued_within(
            m,
            q,
            b,
        ) by {
            if q == q0 && s.qd[0] <= b {
                assert(m.visited[idx] && m.label[idx] == s.qd[0]);
            } else {
                assert(Self::queued_within(Self::popped(s), q, b));
                let k = choose|k: int|
                    0 <= k < Self::popped(s).queue.len() && Self::popped(s).queue[k] == q
                        && Self::popped(s).qd[k] <= b;
                assert(m.queue[k] == q && m.qd[k] <= b);
            }
        }
        assert forall|p: MapPosition|
            self.spec_in_bounds(p.x as int, p.y as int) && #[trigger] s.visited[self.spec_idx(
                p.x as int,
                p.y as int,
            )] implies {
            let d = m.label[self.spec_idx(p.x as int, p.y as int)];
            &&& d <= m.level
            &&& self.reach_in(start, p, d)
            &&& self.closed_in(m, p, d)
        } by {
            crate::map::lemma_idx_in_range(
                self.width as int,
                self.height as int,
                p.x as int,
                p.y as int,
            );
            let d = s.label[self.spec_idx(p.x as int, p.y as int)];
            assert(m.label[self.spec_idx(p.x as int, p.y as int)] == d);
            self.lemma_closed_mono(s, m, p, d);
        }
    }

    /// After every neighbour of the newly visited position is done, the
    /// state holds again.
    proof fn lemma_search_explored(
        &self,
        start: MapPosition,
        old_visited: Seq<bool>,
        m: SearchState,
        s: SearchState,
        curr: MapPosition,
        idx: int,
    )
        requires
            self.wf(),
            m.visited.len() == self.size(),
            m.label.len() == self.size(),
            self.spec_in_bounds(curr.x as int, curr.y as int),
            idx == self.spec_idx(curr.x as int, curr.y as int),
            old_visited.len() == self.size(),
            m.visited == old_visited.update(idx, true),
            m.label[idx] == m.level,
            self.reach_in(start, curr, m.level),
            self.members_closed(start, old_visited, m),
            m.visited[self.spec_idx(start.x as int, start.y as int)],
            m.label[self.spec_idx(start.x as int, start.y as int)] == 0,
            s.visited == m.visited,
            s.label == m.label,
            s.level == m.level,
            forall|q: MapPosition, b: nat| #[trigger]
                Self::queued_within(m, q, b) ==> Self::queued_within(s, q, b),
            self.queue_ok(start, s),
            forall|j: int|
                0 <= j < 8 ==> self.neighbour_done(
                    s,
                    #[trigger] neighbour(curr, Direction::spec_all()[j]),
                    m.level + 1,
                ),
        ensures
            self.search_state(start, s),
    {
        crate::map::lemma_idx_in_range(
            self.width as int,
            self.height as int,
            curr.x as int,
            curr.y as int,
        );
        assert forall|q: MapPosition| #[trigger] adjacent(curr, q) implies self.neighbour_done(
            s,
            q,
            m.level + 1,
        ) by {
            let j = lemma_adjacent_is_neighbour(curr, q);
        }
        reveal(GameMap::members_closed);
        assert forall|p: MapPosition|
            self.spec_in_bounds(p.x as int, p.y as int) && #[trigger] s.visited[self.spec_idx(
                p.x as int,
                p.y as int,
            )] implies {
            let d = s.label[self.spec_idx(p.x as int, p.y as int)];
            &&& d <= s.level
            &&& self.reach_in(start, p, d)
            &&& self.closed_in(s, p, d)
        } by {
            crate::map::lemma_idx_in_range(
                self.width as int,
                self.height as int,
                p.x as int,
                p.y as int,
            );
            if p != curr {
                if self.spec_idx(p.x as int, p.y as int) == idx {
                    crate::map::lemma_idx_unique(
                        self.width as int,
                        self.height as int,
                        p.x as int,
                        p.y as int,
                        curr.x as int,
                        curr.y as int,
                    );
                }
                assert(old_visited[self.spec_idx(p.x as int, p.y as int)]);
                let d = m.label[self.spec_idx(p.x as int, p.y as int)];
                self.lemma_closed_mono(m, s, p, d);
            }
        }
    }

    /// Pushing a position that a walk of one step more than the level
    /// reaches keeps the queue in order, and keeps what waited in it.
    proof fn lemma_queue_push(&self, start: MapPosition, s: SearchState, p: MapPosition)
        requires
            self.queue_ok(start, s),
            forall|k: int| 0 <= k < s.qd.len() ==> #[trigger] s.qd[k] <= s.level + 1,
            self.spec_in_bounds(p.x as int, p.y as int),
            self.reach_in(start, p, s.level + 1),
        ensures
            self.queue_ok(
                start,
                SearchState { queue: s.queue.push(p), qd: s.qd.push((s.level + 1) as nat), ..s },
            ),
            forall|q: MapPosition, b: nat| #[trigger]
                Self::queued_within(s, q, b) ==> Self::queued_within(
                    SearchState {
                        queue: s.queue.push(p),
                        qd: s.qd.push((s.level + 1) as nat),
                        ..s
                    },
                    q,
                    b,
                ),
            Self::queued_within(
                SearchState { queue: s.queue.push(p), qd: s.qd.push((s.level + 1) as nat), ..s },
                p,
                s.level + 1,
            ),
    {
        reveal(GameMap::queue_ok);
        let t = SearchState { queue: s.queue.push(p), qd: s.qd.push((s.level + 1) as nat), ..s };
        let n = s.queue.len() as int;
        assert(t.queue[n] == p && t.qd[n] == s.level + 1);
        assert forall|k: int| 0 <= k < t.queue.len() implies self.spec_in_bounds(
            t.queue[k].x as int,
            t.queue[k].y as int,
        ) && self.reach_in(start, #[trigger] t.queue[k], t.qd[k]) && t.level <= t.qd[k] <= t.level
            + 1 by {
            if k < n {
                assert(t.queue[k] == s.queue[k] && t.qd[k] == s.qd[k]);
            }
        }
        assert forall|a: int, b: int| 0 <= a <= b < t.qd.len() implies #[trigger] t.qd[a]
            <= #[trigger] t.qd[b] by {
            if b < n {
                assert(t.qd[a] == s.qd[a] && t.qd[b] == s.qd[b]);
            } else if a < n {
                assert(t.qd[a] == s.qd[a]);
            }
        }
        assert forall|q: MapPosition, b: nat| #[trigger]
            Self::queued_within(s, q, b) implies Self::queued_within(t, q, b) by {
            let k = choose|k: int| 0 <= k < s.queue.len() && s.queue[k] == q && s.qd[k] <= b;
            assert(t.queue[k] == q && t.qd[k] == s.qd[k]);
        }
    }

    /// While the position taken off the queue at distance `d` is explored,
    /// every walk of fewer than `d` steps from the start ends at a position
    /// visited before, at a distance of at most the walk's length.
    proof fn lemma_short_walk_visited(
        &self,
        start: MapPosition,
        old_visited: Seq<bool>,
        m: SearchState,
        path: Seq<MapPosition>,
    )
        requires
            self.wf(),
            m.visited.len() == self.size(),
            m.label.len() == self.size(),
            old_visited.len() == self.size(),
            self.spec_in_bounds(start.x as int, start.y as int),
            self.members_closed(start, old_visited, m),
            forall|i: int| 0 <= i < old_visited.len() && old_visited[i] ==> m.visited[i],
            forall|i: int|
                0 <= i < m.visited.len() && m.visited[i] && !old_visited[i] ==> m.label[i]
                    == m.level,
            m.qd.len() == m.queue.len(),
            forall|k: int| 0 <= k < m.qd.len() ==> m.level <= #[trigger] m.qd[k],
            m.level >= 1 ==> old_visited[self.spec_idx(start.x as int, start.y as int)]
                && m.label[self.spec_idx(start.x as int, start.y as int)] == 0,
            self.is_walk(path),
            path[0] == start,
            path.len() <= m.level,
        ensures
            self.spec_in_bounds(path.last().x as int, path.last().y as int),
            old_visited[self.spec_idx(path.last().x as int, path.last().y as int)],
            m.label[self.spec_idx(path.last().x as int, path.last().y as int)] <= path.len() - 1,
        decreases path.len(),
    {
        if path.len() > 1 {
            let shorter = path.drop_last();
            self.lemma_walk_prefix(path);
            self.lemma_short_walk_visited(start, old_visited, m, shorter);
            let p = shorter.last();
            let q = path.last();
            reveal(GameMap::members_closed);
            let d = m.label[self.spec_idx(p.x as int, p.y as int)];
            assert(self.closed_in(m, p, d));
            assert(self.neighbour_done(m, q, d + 1));
            if Self::queued_within(m, q, d + 1) {
                let k = choose|k: int| 0 <= k < m.queue.len() && m.queue[k] == q && m.qd[k] <= d + 1;
                assert(m.level <= m.qd[k]);
            }
            let i = self.spec_idx(q.x as int, q.y as int);
            crate::map::lemma_idx_in_range(
                self.width as int,
                self.height as int,
                q.x as int,
                q.y as int,
            );
            if !old_visited[i] {
                assert(m.label[i] == m.level);
            }
        }
    }

    /// While the position taken off the queue at distance `d` is explored,
    /// no position that a walk of fewer than `d` steps reaches borders
    /// unseen open ground.
    proof fn lemma_nearest(&self, start: MapPosition, old_visited: Seq<bool>, m: SearchState)
        requires
            self.wf(),
            m.visited.len() == self.size(),
            m.label.len() == self.size(),
            old_visited.len() == self.size(),
            self.spec_in_bounds(start.x as int, start.y as int),
            self.members_closed(start, old_visited, m),
            forall|i: int| 0 <= i < old_visited.len() && old_visited[i] ==> m.visited[i],
            forall|i: int|
                0 <= i < m.visited.len() && m.visited[i] && !old_visited[i] ==> m.label[i]
                    == m.level,
            m.qd.len() == m.queue.len(),
            forall|k: int| 0 <= k < m.qd.len() ==> m.level <= #[trigger] m.qd[k],
            m.level >= 1 ==> old_visited[self.spec_idx(start.x as int, start.y as int)]
                && m.label[self.spec_idx(start.x as int, start.y as int)] == 0,
        ensures
            forall|q: MapPosition, n: nat|
                n < m.level && #[trigger] self.reach_in(start, q, n) ==> !self.borders_unknown(q),
    {
        assert forall|q: MapPosition, n: nat|
            n < m.level && #[trigger] self.reach_in(start, q, n) implies !self.borders_unknown(q) by {
            let path = choose|path: Seq<MapPosition>|
                #[trigger] self.is_walk(path) && path.len() == n + 1 && path[0] == start
                    && path.last() == q;
            self.lemma_short_walk_visited(start, old_visited, m, path);
            reveal(GameMap::members_closed);
            let d = m.label[self.spec_idx(q.x as int, q.y as int)];
            assert(self.closed_in(m, q, d));
            assert forall|r: MapPosition| #[trigger] adjacent(q, r) implies !self.open_unknown(r) by {
                assert(self.neighbour_done(m, r, d + 1));
            }
        }
    }

    /// A breadth-first search from `pos` over open ground for the nearest
    /// position next to open ground the player has not seen.
    ///
    /// Returns such a position, nearest by walks from `pos`; returns `None`
    /// only when no position a walk from `pos` reaches has open, unseen
    /// ground next to it.
    pub fn find_closest_unknown(&self, pos: MapPosition) -> (r: Option<MapPosition>)
        requires
            self.wf(),
            self.spec_in_bounds(pos.x as int, pos.y as int),
        ensures
            r matches Some(p) ==> self.connected(pos, p) && self.nearest_unknown_border(pos, p),
            r is None ==> forall|p: MapPosition|
                #[trigger] self.connected(pos, p) ==> !self.borders_unknown(p),
    {
        let size = (self.width * self.height) as usize;
        let mut visited: Vec<bool> = Vec::with_capacity(size);
        let mut k: usize = 0;
        while k < size
            invariant
                size == self.size(),
                k <= size,
                visited@.len() == k,
                forall|j: int| 0 <= j < k ==> !visited@[j],
            decreases size - k,
        {
            visited.push(false);
            k = k + 1;
        }
        let mut expand: VecDeque<MapPosition> = VecDeque::new();
        expand.push_back(pos);
        let ghost mut seen: Set<int> = Set::empty();
        let ghost mut st = SearchState {
            visited: visited@,
            label: Seq::new(size as nat, |i: int| 0nat),
            queue: expand@,
            qd: seq![0nat],
            level: 0,
        };
        proof {
            assert(expand@ == seq![pos]);
            self.lemma_search_start(pos, st);
        }
        loop
            invariant
                self.wf(),
                self.spec_in_bounds(pos.x as int, pos.y as int),
                size == self.size(),
                seen.finite(),
                forall|i: int| #[trigger] seen.contains(i) <==> (0 <= i < size && visited@[i]),
                st.visited == visited@,
                st.queue == expand@,
                self.search_state(pos, st),
            decreases (size - seen.len()) * 9 + expand@.len(),
        {
            proof {
                vstd::set_lib::lemma_int_range(0, size as int);
                vstd::set_lib::lemma_len_subset(seen, vstd::set_lib::set_int_range(0, size as int));
            }
            let ghost old_st = st;
            let ghost old_seen = seen;
            match expand.pop_front() {
                None => {
                    proof {
                        self.lemma_search_exhausted(pos, st);
                    }
                    return None;
                },
                Some(curr) => {
                    proof {
                        self.lemma_search_popped(pos, old_st);
                    }
                    let idx = self.idx_of(curr.x, curr.y);
                    if !visited[idx] {
                        visited.set(idx, true);
                        proof {
                            seen = seen.insert(idx as int);
                            self.lemma_search_marked(pos, old_st, idx as int);
                            st = Self::marked(old_st, idx as int);
                        }
                        let ghost m = st;
                        let dirs = Direction::iter();
                        for j in 0..8
                            invariant
                                self.wf(),
                                self.spec_in_bounds(pos.x as int, pos.y as int),
                                self.spec_in_bounds(curr.x as int, curr.y as int),
                                self.reach_in(pos, curr, m.level),
                                size == self.size(),
                                dirs@ == Direction::spec_all(),
                                m.visited.len() == size,
                                m.label.len() == size,
                                visited@ == m.visited,
                                st.visited == m.visited,
                                st.label == m.label,
                                st.level == m.level,
                                st.queue == expand@,
                                expand@.len() <= m.queue.len() + j,
                                forall|q: MapPosition, b: nat| #[trigger]
                                    Self::queued_within(m, q, b) ==> Self::queued_within(st, q, b),
                                self.queue_ok(pos, st),
                                forall|k: int| 0 <= k < st.qd.len() ==> #[trigger] st.qd[k] <= st.level + 1,
                                forall|k: int| 0 <= k < m.qd.len() ==> m.level <= #[trigger] m.qd[k],
                                m.qd.len() == m.queue.len(),
                                self.members_closed(pos, old_st.visited, m),
                                m.visited == old_st.visited.update(idx as int, true),
                                idx == self.spec_idx(curr.x as int, curr.y as int),
                                m.label[idx as int] == m.level,
                                m.visited[self.spec_idx(pos.x as int, pos.y as int)],
                                m.label[self.spec_idx(pos.x as int, pos.y as int)] == 0,
                                m.level >= 1 ==> old_st.visited[self.spec_idx(
                                    pos.x as int,
                                    pos.y as int,
                                )],
                                old_st.visited.len() == size,
                                forall|jj: int|
                                    0 <= jj < j ==> self.neighbour_done(
                                        st,
                                        #[trigger] neighbour(curr, dirs@[jj]),
                                        m.level + 1,
                                    ),
                        {
                            let dir = dirs[j];
                            let np = curr.add_dir(dir);
                            assert(np == neighbour(curr, dir));
                            let solid = self.is_solid(np.to_point());
                            if !solid && !self.revealed_tiles[self.idx_of(np.x, np.y)] {
                                proof {
                                    assert(adjacent(curr, np) && self.open_unknown(np));
                                    self.lemma_reach_connected(pos, curr, m.level);
                                    crate::map::lemma_idx_in_range(
                                        self.width as int,
                                        self.height as int,
                                        curr.x as int,
                                        curr.y as int,
                                    );
                                    assert forall|i: int|
                                        0 <= i < m.visited.len() && m.visited[i]
                                            && !old_st.visited[i] implies m.label[i]
                                        == m.level by {
                                        assert(i == idx);
                                    }
                                    self.lemma_nearest(pos, old_st.visited, m);
                                }
                                return Some(curr);
                            } else if !solid {
                                let ghost before = st;
                                expand.push_back(np);
                                proof {
                                    self.lemma_reach_step(pos, curr, np, m.level);
                                    self.lemma_queue_push(pos, before, np);
                                    st = SearchState {
                                        queue: before.queue.push(np),
                                        qd: before.qd.push((before.level + 1) as nat),
                                        ..before
                                    };
                                    assert(st.qd[st.qd.len() - 1] == st.level + 1);
                                    assert forall|k: int| 0 <= k < st.qd.len() implies #[trigger] st.qd[k]
                                        <= st.level + 1 by {
                                        if k < before.qd.len() {
                                            assert(st.qd[k] == before.qd[k]);
                                        }
                                    }
                                }
                            }
                        }
                        proof {
                            self.lemma_search_explored(pos, old_st.visited, m, st, curr, idx as int);
                            assert(!old_seen.contains(idx as int));
                            vstd::set_lib::lemma_len_subset(
                                seen,
                                vstd::set_lib::set_int_range(0, size as int),
                            );
                        }
                    } else {
                        proof {
                            self.lemma_search_skip(pos, old_st);
                            st = Self::popped(old_st);
                        }
                    }
                },
            }
        }
    }
}

/// The state a breadth-first search keeps: which tiles are visited and at
/// what distance, the queue with the distance of each position in it, and
/// the distance of the position taken off the queue last.
struct SearchState {
    visited: Seq<bool>,
    label: Seq<nat>,
    queue: Seq<MapPosition>,
    qd: Seq<nat>,
    level: nat,
}

} // verus!
