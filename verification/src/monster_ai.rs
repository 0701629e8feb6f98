//! What monsters do when they are ready: attack the player next to them,
//! or walk towards a player they see.

use crate::map::GameMap;
use crate::positions::MapPosition;
use crate::run_state::RunState;
use vstd::prelude::*;

verus! {

/// What a ready monster does.
#[derive(Copy, Clone, Debug, PartialEq, Eq, Structural)]
pub enum MonsterAction {
    /// Attack the player.
    Attack,
    /// Walk one step towards the player.
    Chase,
    /// Nothing.
    Wait,
}

/// The distance in steps of eight directions: the larger of the horizontal
/// and the vertical distance.
pub open spec fn chebyshev(a: MapPosition, b: MapPosition) -> int {
    let dx = if a.x >= b.x {
        a.x - b.x
    } else {
        b.x - a.x
    };
    let dy = if a.y >= b.y {
        a.y - b.y
    } else {
        b.y - a.y
    };
    if dx >= dy {
        dx
    } else {
        dy
    }
}

/// `|a - b|`.
pub open spec fn gap(a: int, b: int) -> int {
    if a >= b {
        a - b
    } else {
        b - a
    }
}

/// The distance in steps of eight directions is the larger of the
/// horizontal and the vertical distance: at least each of them, and equal
/// to one of them. So a position is within one step exactly when it is
/// within one column and within one row.
pub proof fn lemma_chebyshev_is_the_larger_gap(a: MapPosition, b: MapPosition)
    ensures
        chebyshev(a, b) >= gap(a.x as int, b.x as int),
        chebyshev(a, b) >= gap(a.y as int, b.y as int),
        chebyshev(a, b) == gap(a.x as int, b.x as int) || chebyshev(a, b) == gap(
            a.y as int,
            b.y as int,
        ),
        chebyshev(a, b) <= 1 <==> gap(a.x as int, b.x as int) <= 1 && gap(a.y as int, b.y as int)
            <= 1,
        chebyshev(a, b) == chebyshev(b, a),
        chebyshev(a, b) == 0 <==> a == b,
{
}

/// The distance in steps of eight directions.
pub fn chebyshev_distance(a: MapPosition, b: MapPosition) -> (d: i64)
    ensures
        d == chebyshev(a, b),
{
    let dx: i64 = if a.x >= b.x {
        a.x as i64 - b.x as i64
    } else {
        b.x as i64 - a.x as i64
    };
    let dy: i64 = if a.y >= b.y {
        a.y as i64 - b.y as i64
    } else {
        b.y as i64 - a.y as i64
    };
    if dx >= dy {
        dx
    } else {
        dy
    }
}

/// Whether the position is among those seen.
pub fn sees(visible: &Vec<MapPosition>, pos: MapPosition) -> (r: bool)
    ensures
        r == visible@.contains(pos),
{
    let mut k: usize = 0;
    while k < visible.len()
        invariant
            k <= visible@.len(),
            forall|j: int| 0 <= j < k ==> visible@[j] != pos,
        decreases visible@.len() - k,
    {
        if visible[k] == pos {
            proof {
                assert(visible@[k as int] == pos);
            }
            return true;
        }
        k = k + 1;
    }
    false
}

/// What a ready monster at `pos` does: next to the player (within one
/// step, or on the same tile) it attacks; else, when it sees the player,
/// it chases; else it waits.
pub open spec fn spec_monster_action(pos: MapPosition, player_pos: MapPosition, sees_player: bool) -> MonsterAction {
    if chebyshev(pos, player_pos) <= 1 {
        MonsterAction::Attack
    } else if sees_player {
        MonsterAction::Chase
    } else {
        MonsterAction::Wait
    }
}

/// A monster attacks exactly when it is within one column and one row of
/// the player, whether it sees the player or not; farther away it chases
/// the player it sees and waits otherwise.
pub proof fn lemma_attack_only_when_next_to(pos: MapPosition, player_pos: MapPosition, sees_player: bool)
    ensures
        spec_monster_action(pos, player_pos, sees_player) == MonsterAction::Attack <==> gap(
            pos.x as int,
            player_pos.x as int,
        ) <= 1 && gap(pos.y as int, player_pos.y as int) <= 1,
        spec_monster_action(pos, player_pos, sees_player) == MonsterAction::Chase <==> sees_player
            && (gap(pos.x as int, player_pos.x as int) > 1 || gap(pos.y as int, player_pos.y as int)
            > 1),
        spec_monster_action(pos, player_pos, sees_player) == MonsterAction::Wait <==> !sees_player
            && (gap(pos.x as int, player_pos.x as int) > 1 || gap(pos.y as int, player_pos.y as int)
            > 1),
{
    lemma_chebyshev_is_the_larger_gap(pos, player_pos);
}

/// What a ready monster does; see `spec_monster_action`.
pub fn monster_action(pos: MapPosition, player_pos: MapPosition, sees_player: bool) -> (a:
    MonsterAction)
    ensures
        a == spec_monster_action(pos, player_pos, sees_player),
{
    if chebyshev_distance(pos, player_pos) <= 1 {
        MonsterAction::Attack
    } else if sees_player {
        MonsterAction::Chase
    } else {
        MonsterAction::Wait
    }
}

/// Whether `i` goes before `j` in the order monsters act: higher energy
/// first, and among equal energies in their original order.
pub open spec fn acts_before(energies: Seq<i32>, i: int, j: int) -> bool {
    energies[i] > energies[j] || (energies[i] == energies[j] && i < j)
}

/// The order in which the ready monsters act: the indexes of the energies
/// of zero or more, highest energy first, ties in their original order.
pub open spec fn is_ready_order(energies: Seq<i32>, order: Seq<usize>) -> bool {
    &&& forall|k: int|
        0 <= k < order.len() ==> #[trigger] order[k] < energies.len() && energies[order[k] as int]
            >= 0
    &&& forall|i: int|
        0 <= i < energies.len() && energies[i] >= 0 ==> #[trigger] order.contains(i as usize)
    &&& forall|a: int, b: int|
        0 <= a < b < order.len() ==> acts_before(
            energies,
            #[trigger] order[a] as int,
            #[trigger] order[b] as int,
        )
}

/// The indexes of the ready monsters in the order they act; see
/// `is_ready_order`.
pub fn ready_order(energies: &Vec<i32>) -> (order: Vec<usize>)
    ensures
        is_ready_order(energies@, order@),
{
    let mut order: Vec<usize> = Vec::new();
    for i in 0..energies.len()
        invariant
            forall|k: int|
                0 <= k < order@.len() ==> #[trigger] order@[k] < i && energies@[order@[k] as int]
                    >= 0,
            forall|j: int|
                0 <= j < i && energies@[j] >= 0 ==> #[trigger] order@.contains(j as usize),
            forall|a: int, b: int|
                0 <= a < b < order@.len() ==> acts_before(
                    energies@,
                    #[trigger] order@[a] as int,
                    #[trigger] order@[b] as int,
                ),
    {
        if energies[i] >= 0 {
            let e = energies[i];
            let mut pos: usize = 0;
            while pos < order.len() && energies[order[pos]] >= e
                invariant
                    pos <= order@.len(),
                    i < energies@.len(),
                    e == energies@[i as int],
                    forall|k: int|
                        0 <= k < order@.len() ==> #[trigger] order@[k] < i && energies@[order@[k] as int]
                            >= 0,
                    forall|a: int, b: int|
                        0 <= a < b < order@.len() ==> acts_before(
                            energies@,
                            #[trigger] order@[a] as int,
                            #[trigger] order@[b] as int,
                        ),
                    forall|k: int| 0 <= k < pos ==> energies@[#[trigger] order@[k] as int] >= e,
                decreases order@.len() - pos,
            {
                pos = pos + 1;
            }
            let ghost before = order@;
            order.insert(pos, i);
            proof {
                assert forall|k: int|
                    0 <= k < order@.len() implies #[trigger] order@[k] < i + 1 && energies@[order@[k] as int]
                        >= 0 by {
                    if k < pos {
                        assert(order@[k] == before[k]);
                    } else if k > pos {
                        assert(order@[k] == before[k - 1]);
                    }
                }
                assert forall|j: int|
                    0 <= j < i + 1 && energies@[j] >= 0 implies #[trigger] order@.contains(j as usize) by {
                    if j == i {
                        assert(order@[pos as int] == i);
                    } else {
                        assert(before.contains(j as usize));
                        let k = choose|k: int| 0 <= k < before.len() && before[k] == j as usize;
                        if k < pos {
                            assert(order@[k] == before[k]);
                        } else {
                            assert(order@[k + 1] == before[k]);
                        }
                    }
                }
                assert forall|a: int, b: int|
                    0 <= a < b < order@.len() implies acts_before(
                    energies@,
                    #[trigger] order@[a] as int,
                    #[trigger] order@[b] as int,
                ) by {
                    if b < pos {
                        assert(order@[a] == before[a] && order@[b] == before[b]);
                    } else if b == pos {
                        assert(order@[a] == before[a]);
                        assert(energies@[before[a] as int] >= e);
                    } else if a < pos {
                        assert(order@[a] == before[a] && order@[b] == before[b - 1]);
                        if b - 1 > a {
                            assert(acts_before(energies@, before[a] as int, before[b - 1] as int));
                        }
                    } else if a == pos {
                        assert(order@[b] == before[b - 1]);
                        if pos < before.len() {
                            assert(energies@[before[pos as int] as int] < e);
                            if b - 1 > pos {
                                assert(acts_before(
                                    energies@,
                                    before[pos as int] as int,
                                    before[b - 1] as int,
                                ));
                            }
                        }
                    } else {
                        assert(order@[a] == before[a - 1] && order@[b] == before[b - 1]);
                    }
                }
            }
        }
    }
    order
}

/// The monsters that act this time, in order: in a tick (with or without
/// time passing) those ready to act, highest energy first (see
/// `ready_order`); in any other state of the turn cycle none.
pub fn monster_turn<Entity>(state: RunState<Entity>, energies: &Vec<i32>) -> (order: Vec<usize>)
    ensures
        state is Tick || state is EnergylessTick ==> is_ready_order(energies@, order@),
        !(state is Tick || state is EnergylessTick) ==> order@.len() == 0,
{
    match state {
        RunState::Tick | RunState::EnergylessTick => ready_order(energies),
        _ => Vec::new(),
    }
}

impl<Entity> GameMap<Entity> {
    /// A monster at `pos` steps onto the tile `new_idx` unless it is
    /// blocked (see `move_blocker`). Returns where the monster stands
    /// after.
    pub fn monster_step(&mut self, pos: MapPosition, new_idx: usize) -> (new_pos: MapPosition)
        requires
            old(self).wf(),
            old(self).spec_in_bounds(pos.x as int, pos.y as int),
            new_idx < old(self).size(),
        ensures
            final(self).wf(),
            old(self).blocked@[new_idx as int] ==> new_pos == pos && *final(self) == *old(self),
            !old(self).blocked@[new_idx as int] ==> {
                &&& old(self).spec_in_bounds(new_pos.x as int, new_pos.y as int)
                &&& old(self).spec_idx(new_pos.x as int, new_pos.y as int) == new_idx
                &&& final(self).blocked@ == old(self).blocked@.update(
                    old(self).spec_idx(pos.x as int, pos.y as int),
                    false,
                ).update(new_idx as int, true)
                &&& final(self).dangerous@ == old(self).dangerous@.update(
                    old(self).spec_idx(pos.x as int, pos.y as int),
                    false,
                ).update(new_idx as int, true)
            },
            *final(self) == (GameMap {
                blocked: final(self).blocked,
                dangerous: final(self).dangerous,
                ..*old(self)
            }),
    {
        let old_idx = self.idx_of(pos.x, pos.y);
        let target = self.index_to_point2d(new_idx);
        if self.move_blocker(old_idx, new_idx) {
            MapPosition { x: target.x, y: target.y }
        } else {
            pos
        }
    }
}

/// Whether the monsters stand on distinct tiles, each of them blocked.
pub open spec fn monsters_apart(tiles: Seq<int>, blocked: Seq<bool>) -> bool {
    &&& forall|i: int, j: int| 0 <= i < j < tiles.len() ==> tiles[i] != tiles[j]
    &&& forall|i: int|
        0 <= i < tiles.len() ==> 0 <= #[trigger] tiles[i] < blocked.len() && blocked[tiles[i]]
}

/// Monsters never share a tile: when the monsters stand apart on blocked
/// tiles and monster `k` takes a step as `monster_step` does (onto a tile
/// that was not blocked, which then is, while the tile it left is not), they
/// still stand apart; a blocked step leaves everything as it was.
pub proof fn lemma_steps_keep_monsters_apart(tiles: Seq<int>, blocked: Seq<bool>, k: int, n: int)
    requires
        monsters_apart(tiles, blocked),
        0 <= k < tiles.len(),
        0 <= n < blocked.len(),
        !blocked[n],
    ensures
        monsters_apart(tiles.update(k, n), blocked.update(tiles[k], false).update(n, true)),
{
    let after = blocked.update(tiles[k], false).update(n, true);
    let moved = tiles.update(k, n);
    assert forall|i: int| 0 <= i < moved.len() implies 0 <= #[trigger] moved[i] < after.len()
        && after[moved[i]] by {
        if i != k {
            assert(tiles[i] != tiles[k]);
        }
    }
    assert forall|i: int, j: int| 0 <= i < j < moved.len() implies moved[i] != moved[j] by {
        if i == k {
            assert(blocked[tiles[j]]);
        } else if j == k {
            assert(blocked[tiles[i]]);
        }
    }
}

} // verus!
