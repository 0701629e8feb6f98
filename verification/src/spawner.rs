//! What lives in the dungeon: the player, the monsters and the items, and
//! where in a room they appear.

use crate::combat::CombatStats;
use crate::map::MAP_WIDTH;
use crate::rect::Rect;
use crate::rng::roll_dice;
use bracket_lib::prelude::RandomNumberGenerator;
use vstd::prelude::*;

verus! {

/// The most monsters a room gets.
pub const MAX_MONSTERS: i32 = 5;

/// The most items a room gets.
pub const MAX_ITEMS: i32 = 3;

/// The kinds of monsters.
#[derive(Copy, Clone, Debug, PartialEq, Eq, Structural)]
pub enum MonsterKind {
    Lamotte,
    Janouch,
}

/// The kinds of items.
#[derive(Copy, Clone, Debug, PartialEq, Eq, Structural)]
pub enum ItemKind {
    HealthPotion,
    MagicMissileScroll,
    FireballScroll,
    Ball,
}

/// The player's stats at the start.
pub fn player_stats() -> (s: CombatStats)
    ensures
        s == (CombatStats { max_hp: 30, hp: 30, defense: 2, power: 5 }),
{
    CombatStats { max_hp: 30, hp: 30, defense: 2, power: 5 }
}

/// A monster's stats at the start.
pub fn monster_stats() -> (s: CombatStats)
    ensures
        s == (CombatStats { max_hp: 16, hp: 16, defense: 1, power: 4 }),
{
    CombatStats { max_hp: 16, hp: 16, defense: 1, power: 4 }
}

/// How far the player and the monsters see.
pub const VIEW_RANGE: i32 = 8;

/// The monster a roll of a two-sided die gives: Lamotte on 1, else Janouch.
pub open spec fn spec_monster_kind(roll: int) -> MonsterKind {
    if roll == 1 {
        MonsterKind::Lamotte
    } else {
        MonsterKind::Janouch
    }
}

/// The monster a roll of a two-sided die gives; see `spec_monster_kind`.
pub fn monster_kind(roll: i32) -> (k: MonsterKind)
    ensures
        k == spec_monster_kind(roll as int),
{
    match roll {
        1 => MonsterKind::Lamotte,
        _ => MonsterKind::Janouch,
    }
}

/// A random monster: one roll of a two-sided die; see `monster_kind`.
pub fn random_monster(rng: &mut RandomNumberGenerator) -> (k: MonsterKind)
    ensures
        exists|roll: int| 1 <= roll <= 2 && k == spec_monster_kind(roll),
{
    let roll = roll_dice(rng, 1, 2);
    monster_kind(roll)
}

/// The item a roll of a four-sided die gives: a health potion on 1, a magic
/// missile scroll on 2, a fireball scroll on 3, else a ball.
pub open spec fn spec_item_kind(roll: int) -> ItemKind {
    if roll == 1 {
        ItemKind::HealthPotion
    } else if roll == 2 {
        ItemKind::MagicMissileScroll
    } else if roll == 3 {
        ItemKind::FireballScroll
    } else {
        ItemKind::Ball
    }
}

/// The item a roll of a four-sided die gives; see `spec_item_kind`.
pub fn item_kind(roll: i32) -> (k: ItemKind)
    ensures
        k == spec_item_kind(roll as int),
{
    match roll {
        1 => ItemKind::HealthPotion,
        2 => ItemKind::MagicMissileScroll,
        3 => ItemKind::FireballScroll,
        _ => ItemKind::Ball,
    }
}

/// A random item: one roll of a four-sided die; see `item_kind`.
pub fn random_item(rng: &mut RandomNumberGenerator) -> (k: ItemKind)
    ensures
        exists|roll: int| 1 <= roll <= 4 && k == spec_item_kind(roll),
{
    let roll = roll_dice(rng, 1, 4);
    item_kind(roll)
}

/// The name and glyph of a monster.
pub fn monster_look(kind: MonsterKind) -> (r: (&'static str, char))
    ensures
        kind == MonsterKind::Lamotte ==> r.0@ == "Lamotte"@ && r.1 == 'l',
        kind == MonsterKind::Janouch ==> r.0@ == "Janouch"@ && r.1 == 'j',
{
    match kind {
        MonsterKind::Lamotte => ("Lamotte", 'l'),
        MonsterKind::Janouch => ("Janouch", 'j'),
    }
}

/// What an item is and does.
#[derive(Copy, Clone, Debug)]
pub struct ItemProps {
    pub glyph: char,
    pub color: (u8, u8, u8),
    /// Used up when used.
    pub consumable: bool,
    pub heal_amount: Option<i32>,
    pub damage: Option<i32>,
    pub range: Option<i32>,
    pub radius: Option<i32>,
}

/// What each kind of item is and does: a health potion heals 8; a magic
/// missile scroll does 8 damage at range 6; a fireball scroll does 20
/// damage to all within 3 tiles, at range 6; a ball does nothing.
pub fn item_props(kind: ItemKind) -> (p: ItemProps)
    ensures
        kind == ItemKind::HealthPotion ==> p == (ItemProps {
            glyph: '¡',
            color: (255, 0, 255),
            consumable: true,
            heal_amount: Some(8),
            damage: None,
            range: None,
            radius: None,
        }),
        kind == ItemKind::MagicMissileScroll ==> p == (ItemProps {
            glyph: '?',
            color: (0, 255, 255),
            consumable: true,
            heal_amount: None,
            damage: Some(8),
            range: Some(6),
            radius: None,
        }),
        kind == ItemKind::FireballScroll ==> p == (ItemProps {
            glyph: '?',
            color: (255, 165, 0),
            consumable: true,
            heal_amount: None,
            damage: Some(20),
            range: Some(6),
            radius: Some(3),
        }),
        kind == ItemKind::Ball ==> p == (ItemProps {
            glyph: '*',
            color: (160, 32, 240),
            consumable: false,
            heal_amount: None,
            damage: None,
            range: None,
            radius: None,
        }),
{
    match kind {
        ItemKind::HealthPotion => ItemProps {
            glyph: '¡',
            color: (255, 0, 255),
            consumable: true,
            heal_amount: Some(8),
            damage: None,
            range: None,
            radius: None,
        },
        ItemKind::MagicMissileScroll => ItemProps {
            glyph: '?',
            color: (0, 255, 255),
            consumable: true,
            heal_amount: None,
            damage: Some(8),
            range: Some(6),
            radius: None,
        },
        ItemKind::FireballScroll => ItemProps {
            glyph: '?',
            color: (255, 165, 0),
            consumable: true,
            heal_amount: None,
            damage: Some(20),
            range: Some(6),
            radius: Some(3),
        },
        ItemKind::Ball => ItemProps {
            glyph: '*',
            color: (160, 32, 240),
            consumable: false,
            heal_amount: None,
            damage: None,
            range: None,
            radius: None,
        },
    }
}

/// The name of an item.
pub fn item_name(kind: ItemKind) -> (name: &'static str)
    ensures
        name@ == match kind {
            ItemKind::HealthPotion => "Health Potion"@,
            ItemKind::MagicMissileScroll => "Magic Missile Scroll"@,
            ItemKind::FireballScroll => "Fireball Scroll"@,
            ItemKind::Ball => "Ball"@,
        },
{
    match kind {
        ItemKind::HealthPotion => "Health Potion",
        ItemKind::MagicMissileScroll => "Magic Missile Scroll",
        ItemKind::FireballScroll => "Fireball Scroll",
        ItemKind::Ball => "Ball",
    }
}

/// How many things of a kind with at most `max` a room gets: one roll of a
/// die with `max + 2` sides, less 3 (none when that is below one).
pub fn spawn_count(rng: &mut RandomNumberGenerator, max: i32) -> (n: i32)
    requires
        1 <= max <= 1000,
    ensures
        -2 <= n <= max - 1,
{
    roll_dice(rng, 1, max + 2) - 3
}

/// The width and height of a room, measured between its walls.
pub open spec fn room_span(a: i32, b: i32) -> int {
    if b >= a {
        b - a
    } else {
        a - b
    }
}

/// A random place in the room: a roll for each of its spans, added to its
/// top left corner.
pub fn spawn_rolls(rng: &mut RandomNumberGenerator, room: Rect) -> (r: (i32, i32))
    requires
        1 <= room_span(room.x1, room.x2) < i32::MAX,
        1 <= room_span(room.y1, room.y2) < i32::MAX,
    ensures
        1 <= r.0 <= room_span(room.x1, room.x2),
        1 <= r.1 <= room_span(room.y1, room.y2),
{
    let w = if room.x2 >= room.x1 {
        room.x2 - room.x1
    } else {
        room.x1 - room.x2
    };
    let h = if room.y2 >= room.y1 {
        room.y2 - room.y1
    } else {
        room.y1 - room.y2
    };
    (roll_dice(rng, 1, w), roll_dice(rng, 1, h))
}

/// The map index of the spawn point the rolls `(rx, ry)` give in the room.
pub open spec fn spawn_idx(room: Rect, rx: int, ry: int) -> int {
    (room.y1 + ry) * MAP_WIDTH + room.x1 + rx
}

/// Adds the spawn point the rolls give unless it is taken already; returns
/// whether it was added.
pub fn try_add_spawn_point(points: &mut Vec<usize>, room: Rect, rx: i32, ry: i32) -> (added: bool)
    requires
        0 <= spawn_idx(room, rx as int, ry as int) <= i32::MAX,
        0 <= room.x1 + rx <= i32::MAX,
        i32::MIN <= room.y1 + ry <= i32::MAX,
    ensures
        added == !old(points)@.contains(spawn_idx(room, rx as int, ry as int) as usize),
        added ==> final(points)@ == old(points)@.push(
            spawn_idx(room, rx as int, ry as int) as usize,
        ),
        !added ==> final(points)@ == old(points)@,
{
    let x = room.x1 + rx;
    let y = room.y1 + ry;
    assert(i32::MIN <= y * MAP_WIDTH <= i32::MAX) by {
        assert(y * MAP_WIDTH == spawn_idx(room, rx as int, ry as int) - x);
    }
    let idx = (y * MAP_WIDTH + x) as usize;
    assert(idx == spawn_idx(room, rx as int, ry as int) as usize);
    let mut k: usize = 0;
    while k < points.len()
        invariant
            idx == spawn_idx(room, rx as int, ry as int) as usize,
            k <= points@.len(),
            forall|j: int| 0 <= j < k ==> points@[j] != idx,
        decreases points@.len() - k,
    {
        if points[k] == idx {
            assert(points@[k as int] == idx);
            return false;
        }
        k = k + 1;
    }
    points.push(idx);
    true
}

/// The position of a spawn point's index on the map.
pub fn spawn_position(idx: usize) -> (r: (i32, i32))
    requires
        idx <= i32::MAX,
    ensures
        r.0 == idx as int % MAP_WIDTH as int,
        r.1 == idx as int / MAP_WIDTH as int,
{
    let x = idx % (MAP_WIDTH as usize);
    let y = idx / (MAP_WIDTH as usize);
    (x as i32, y as i32)
}

} // verus!
