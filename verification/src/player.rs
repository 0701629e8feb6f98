//! What the player's keys and clicks do, and where the player goes.

use crate::gui::{spec_key_to_dir, key_to_dir, Key};
use crate::map::GameMap;
use crate::positions::{Direction, MapPosition};
use crate::energy::MOVE_ENERGY;
use crate::run_state::RunState;
use vstd::prelude::*;

verus! {

/// Which inventory a menu shows it for.
#[derive(Copy, Clone, Debug, PartialEq, Eq, Structural)]
pub enum InventoryType {
    Apply,
    Drop,
}

/// Where the player walks to by themselves.
#[derive(Copy, Clone, Debug, PartialEq, Eq, Structural)]
pub enum PlayerTarget {
    /// Nowhere.
    NoTarget,
    Position(MapPosition),
    Dir(Direction),
}

/// What the player asked for.
#[derive(Copy, Clone, Debug, PartialEq, Eq, Structural)]
pub enum PlayerCommand {
    /// Walk towards the clicked cell.
    ClickWalk,
    /// Save the game.
    SaveGame,
    /// Stop walking by themselves, and start walking in the direction if
    /// there is one; then go on walking.
    StartAutoWalk(Option<Direction>),
    /// Go on walking by themselves, if they do.
    AutoWalk,
    /// Step one tile.
    Move(i32, i32),
    /// Wait a turn.
    Wait,
    /// Pick up what lies here.
    PickUp,
    /// Show the inventory.
    ShowInventory(InventoryType),
    /// Ask whether to quit.
    Quit,
    /// Nothing.
    Nothing,
}

/// What a key press asks for, with shift held or not, or a click: a click
/// walks to the cell; with shift, q saves and any other key starts walking
/// in its direction; without it the vi keys and arrows step, space waits,
/// comma picks up, a and d show the inventory to use or to drop, escape
/// quits; no key goes on walking.
pub open spec fn spec_player_command(key: Option<Key>, shift: bool, left_click: bool) -> PlayerCommand {
    if left_click {
        PlayerCommand::ClickWalk
    } else if shift {
        match key {
            Some(Key::Q) => PlayerCommand::SaveGame,
            Some(k) => PlayerCommand::StartAutoWalk(spec_key_to_dir(k)),
            None => PlayerCommand::AutoWalk,
        }
    } else {
        match key {
            None => PlayerCommand::AutoWalk,
            Some(k) => match k {
                Key::H | Key::Left => PlayerCommand::Move(-1i32, 0i32),
                Key::L | Key::Right => PlayerCommand::Move(1i32, 0i32),
                Key::K | Key::Up => PlayerCommand::Move(0i32, -1i32),
                Key::J | Key::Down => PlayerCommand::Move(0i32, 1i32),
                Key::Y => PlayerCommand::Move(-1i32, -1i32),
                Key::U => PlayerCommand::Move(1i32, -1i32),
                Key::B => PlayerCommand::Move(-1i32, 1i32),
                Key::N => PlayerCommand::Move(1i32, 1i32),
                Key::Space => PlayerCommand::Wait,
                Key::Comma => PlayerCommand::PickUp,
                Key::A => PlayerCommand::ShowInventory(InventoryType::Apply),
                Key::D => PlayerCommand::ShowInventory(InventoryType::Drop),
                Key::Escape => PlayerCommand::Quit,
                _ => PlayerCommand::Nothing,
            },
        }
    }
}

/// Each movement key steps the way it names: without shift, a key that
/// names a direction asks for a step of that direction's offsets.
pub proof fn lemma_keys_step_their_direction(k: Key)
    ensures
        spec_key_to_dir(k) matches Some(d) ==> spec_player_command(Some(k), false, false)
            == PlayerCommand::Move(d.dx(), d.dy()),
{
}

/// The eight movement keys step one tile each, in eight different ways,
/// and opposite keys step oppositely: up (k) and down (j), left (h) and
/// right (l), up-left (y) and down-right (n), up-right (u) and down-left
/// (b).
pub proof fn lemma_movement_keys_distinct_and_opposite()
    ensures
        ({
            let keys = seq![Key::K, Key::U, Key::L, Key::N, Key::J, Key::B, Key::H, Key::Y];
            &&& forall|i: int|
                0 <= i < 8 ==> (#[trigger] spec_player_command(Some(keys[i]), false, false) matches PlayerCommand::Move(dx, dy)
                    && -1 <= dx <= 1 && -1 <= dy <= 1 && !(dx == 0 && dy == 0))
            &&& forall|i: int, j: int|
                0 <= i < j < 8 ==> #[trigger] spec_player_command(Some(keys[i]), false, false)
                    != #[trigger] spec_player_command(Some(keys[j]), false, false)
            &&& forall|i: int|
                0 <= i < 4 ==> (#[trigger] spec_player_command(Some(keys[i]), false, false) matches PlayerCommand::Move(dx, dy)
                    && spec_player_command(Some(keys[i + 4]), false, false) == PlayerCommand::Move(
                    (-dx) as i32,
                    (-dy) as i32,
                ))
        }),
        spec_player_command(Some(Key::Up), false, false) == spec_player_command(Some(Key::K), false, false),
        spec_player_command(Some(Key::Down), false, false) == spec_player_command(Some(Key::J), false, false),
        spec_player_command(Some(Key::Left), false, false) == spec_player_command(Some(Key::H), false, false),
        spec_player_command(Some(Key::Right), false, false) == spec_player_command(Some(Key::L), false, false),
{
    let keys = seq![Key::K, Key::U, Key::L, Key::N, Key::J, Key::B, Key::H, Key::Y];
    assert(keys[0] == Key::K && keys[1] == Key::U && keys[2] == Key::L && keys[3] == Key::N);
    assert(keys[4] == Key::J && keys[5] == Key::B && keys[6] == Key::H && keys[7] == Key::Y);
}

/// What the player asked for; see `spec_player_command`.
pub fn player_command(key: Option<Key>, shift: bool, left_click: bool) -> (c: PlayerCommand)
    ensures
        c == spec_player_command(key, shift, left_click),
{
    if left_click {
        PlayerCommand::ClickWalk
    } else if shift {
        match key {
            Some(Key::Q) => PlayerCommand::SaveGame,
            Some(k) => PlayerCommand::StartAutoWalk(key_to_dir(k)),
            None => PlayerCommand::AutoWalk,
        }
    } else {
        match key {
            None => PlayerCommand::AutoWalk,
            Some(k) => match k {
                Key::H | Key::Left => PlayerCommand::Move(-1, 0),
                Key::L | Key::Right => PlayerCommand::Move(1, 0),
                Key::K | Key::Up => PlayerCommand::Move(0, -1),
                Key::J | Key::Down => PlayerCommand::Move(0, 1),
                Key::Y => PlayerCommand::Move(-1, -1),
                Key::U => PlayerCommand::Move(1, -1),
                Key::B => PlayerCommand::Move(-1, 1),
                Key::N => PlayerCommand::Move(1, 1),
                Key::Space => PlayerCommand::Wait,
                Key::Comma => PlayerCommand::PickUp,
                Key::A => PlayerCommand::ShowInventory(InventoryType::Apply),
                Key::D => PlayerCommand::ShowInventory(InventoryType::Drop),
                Key::Escape => PlayerCommand::Quit,
                _ => PlayerCommand::Nothing,
            },
        }
    }
}

/// What a step of the player comes to.
#[derive(Debug, PartialEq, Eq, Structural)]
pub enum MoveOutcome<Entity> {
    /// The player attacks what stands there.
    Attack(Entity),
    /// The player stands here now.
    Moved(MapPosition),
    /// The way is blocked.
    Blocked,
}

/// What the player's step comes to in the turn cycle, and the player's
/// energy after it. An attack hands over to a tick in which no time passes
/// (the attack itself sets the attacker's energy, see `melee`); a blocked
/// step leaves the player to choose again, energy untouched; a step taken
/// costs `MOVE_ENERGY` (the player's view then needs recomputing) and also
/// hands over to a tick in which no time passes.
pub fn step_turn<Entity: Copy>(outcome: &MoveOutcome<Entity>) -> (r: (
    RunState<Entity>,
    Option<i32>,
))
    ensures
        r == match *outcome {
            MoveOutcome::Attack(_) => (RunState::<Entity>::EnergylessTick, None::<i32>),
            MoveOutcome::Blocked => (RunState::<Entity>::AwaitingInput, None::<i32>),
            MoveOutcome::Moved(_) => (RunState::<Entity>::EnergylessTick, Some(MOVE_ENERGY)),
        },
{
    match outcome {
        MoveOutcome::Attack(_) => (RunState::EnergylessTick, None),
        MoveOutcome::Blocked => (RunState::AwaitingInput, None),
        MoveOutcome::Moved(_) => (RunState::EnergylessTick, Some(MOVE_ENERGY)),
    }
}

/// The first index `k` from `from` on with `fighters[k]`.
pub open spec fn first_fighter(fighters: Seq<bool>, from: int) -> Option<int>
    decreases fighters.len() - from,
{
    if from < 0 || from >= fighters.len() {
        None
    } else if fighters[from] {
        Some(from)
    } else {
        first_fighter(fighters, from + 1)
    }
}

/// The index of the tile the player steps onto.
pub open spec fn step_idx(w: int, pos: MapPosition, dx: int, dy: int) -> int {
    (pos.y + dy) * w + pos.x + dx
}

/// `v` kept within `0..=hi`.
pub open spec fn clamp(v: int, hi: int) -> int {
    if v < 0 {
        0
    } else if v > hi {
        hi
    } else {
        v
    }
}

/// The player at `pos` tries to step by `(dx, dy)`. `fighters` tells, for
/// each entity on the tile stepped onto, whether it can fight. The first
/// that can is attacked; else the step is taken unless the tile is blocked.
/// The new position is kept on the map.
pub fn try_move<Entity: Copy>(
    map: &GameMap<Entity>,
    pos: MapPosition,
    dx: i32,
    dy: i32,
    fighters: &Vec<bool>,
) -> (r: MoveOutcome<Entity>)
    requires
        map.wf(),
        i32::MIN <= pos.x + dx <= i32::MAX,
        i32::MIN <= pos.y + dy <= i32::MAX,
        i32::MIN <= (pos.y + dy) * map.width <= i32::MAX,
        i32::MIN <= (pos.y + dy) * map.width + pos.x + dx <= i32::MAX,
        0 <= step_idx(map.width as int, pos, dx as int, dy as int) < map.size(),
        fighters@.len() == map.tile_content@[step_idx(
            map.width as int,
            pos,
            dx as int,
            dy as int,
        )]@.len(),
    ensures
        ({
            let i = step_idx(map.width as int, pos, dx as int, dy as int);
            match first_fighter(fighters@, 0) {
                Some(k) => r == MoveOutcome::Attack(map.tile_content@[i]@[k]),
                None => if map.blocked@[i] {
                    r == MoveOutcome::<Entity>::Blocked
                } else {
                    r == MoveOutcome::<Entity>::Moved(
                        MapPosition {
                            x: clamp(pos.x + dx, map.width - 1) as i32,
                            y: clamp(pos.y + dy, map.height - 1) as i32,
                        },
                    )
                },
            }
        }),
{
    let x = pos.x + dx;
    let y = pos.y + dy;
    let idx = map.xy_to_idx(x, y);
    let content = &map.tile_content[idx];
    assert(idx as int == step_idx(map.width as int, pos, dx as int, dy as int));
    let mut k: usize = 0;
    while k < fighters.len()
        invariant
            idx as int == step_idx(map.width as int, pos, dx as int, dy as int),
            content@ == map.tile_content@[idx as int]@,
            k <= fighters@.len(),
            fighters@.len() == content@.len(),
            first_fighter(fighters@, 0) == first_fighter(fighters@, k as int),
        decreases fighters@.len() - k,
    {
        if fighters[k] {
            assert(first_fighter(fighters@, k as int) == Some(k as int));
            return MoveOutcome::Attack(content[k]);
        }
        k = k + 1;
    }
    if map.blocked[idx] {
        MoveOutcome::Blocked
    } else {
        let nx = if x < 0 {
            0
        } else if x > map.width - 1 {
            map.width - 1
        } else {
            x
        };
        let ny = if y < 0 {
            0
        } else if y > map.height - 1 {
            map.height - 1
        } else {
            y
        };
        MoveOutcome::Moved(MapPosition { x: nx, y: ny })
    }
}

/// The step towards a target direction when walking by oneself: the
/// direction's step when a path may go there, else none.
pub fn auto_walk_dir_step<Entity>(map: &GameMap<Entity>, pos: MapPosition, dir: Direction) -> (r:
    Option<(i32, i32)>)
    requires
        map.wf(),
        map.spec_in_bounds(pos.x as int, pos.y as int),
    ensures
        r == (if map.spec_exit_valid(pos.x + dir.dx(), pos.y + dir.dy()) {
            Some((dir.dx(), dir.dy()))
        } else {
            None
        }),
{
    let (dx, dy) = crate::positions::dir_to_dx_dy(dir);
    let new_pos = pos.add_delta((dx, dy));
    if map.is_exit_valid(new_pos.x, new_pos.y) {
        Some((dx, dy))
    } else {
        None
    }
}

/// The step from `pos` to the tile `next_idx`, the next tile of a path.
pub fn path_step<Entity>(map: &GameMap<Entity>, pos: MapPosition, next_idx: usize) -> (r: (i32, i32))
    requires
        map.wf(),
        map.spec_in_bounds(pos.x as int, pos.y as int),
        next_idx < map.size(),
    ensures
        r.0 == next_idx as int % map.width as int - pos.x,
        r.1 == next_idx as int / map.width as int - pos.y,
{
    let p = map.index_to_point2d(next_idx);
    proof {
        crate::map::lemma_cell_of_idx(map.width as int, p.x as int, p.y as int);
    }
    (p.x - pos.x, p.y - pos.y)
}

/// Where a click sends the player walking: to the clicked position when it
/// is in view and revealed, else nowhere.
pub fn click_target<Entity>(map: &GameMap<Entity>, map_pos: MapPosition, in_view: bool) -> (t:
    PlayerTarget)
    requires
        map.wf(),
        in_view ==> map.spec_in_bounds(map_pos.x as int, map_pos.y as int),
    ensures
        t == (if in_view && map.revealed_tiles@[map.spec_idx(
            map_pos.x as int,
            map_pos.y as int,
        )] {
            PlayerTarget::Position(map_pos)
        } else {
            PlayerTarget::NoTarget
        }),
{
    if in_view && map.revealed_tiles[map.idx_of(map_pos.x, map_pos.y)] {
        PlayerTarget::Position(map_pos)
    } else {
        PlayerTarget::NoTarget
    }
}

} // verus!
