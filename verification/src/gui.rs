//! The decisions of the user interface: which key does what in the menus,
//! where a cursor moves, which letter shows an item, and how the health
//! bar is colored. Drawing is left to the caller.

use crate::combat::div_toward_zero;
use crate::positions::{Direction, ScreenPosition};
use vstd::prelude::*;

verus! {

/// Rows at the bottom of the screen kept for the log and the health bar.
pub const BOTTOM_HEIGHT: i32 = 7;

/// The keys the game reads.
#[derive(Copy, Clone, Debug, PartialEq, Eq, Structural)]
pub enum Key {
    A,
    B,
    C,
    D,
    E,
    F,
    G,
    H,
    I,
    J,
    K,
    L,
    M,
    N,
    O,
    P,
    Q,
    R,
    S,
    T,
    U,
    V,
    W,
    X,
    Y,
    Z,
    Left,
    Right,
    Up,
    Down,
    Escape,
    Return,
    Space,
    Comma,
    /// Any other key.
    Other,
}

/// The position of a letter key in the alphabet, from 0; -1 for any other
/// key.
pub open spec fn letter_index(key: Key) -> int {
    match key {
        Key::A => 0,
        Key::B => 1,
        Key::C => 2,
        Key::D => 3,
        Key::E => 4,
        Key::F => 5,
        Key::G => 6,
        Key::H => 7,
        Key::I => 8,
        Key::J => 9,
        Key::K => 10,
        Key::L => 11,
        Key::M => 12,
        Key::N => 13,
        Key::O => 14,
        Key::P => 15,
        Key::Q => 16,
        Key::R => 17,
        Key::S => 18,
        Key::T => 19,
        Key::U => 20,
        Key::V => 21,
        Key::W => 22,
        Key::X => 23,
        Key::Y => 24,
        Key::Z => 25,
        _ => -1,
    }
}

impl Key {
    /// The position of a letter key in the alphabet, from 0; -1 for any
    /// other key.
    pub fn letter_option(self) -> (r: i32)
        ensures
            r == letter_index(self),
    {
        match self {
            Key::A => 0,
            Key::B => 1,
            Key::C => 2,
            Key::D => 3,
            Key::E => 4,
            Key::F => 5,
            Key::G => 6,
            Key::H => 7,
            Key::I => 8,
            Key::J => 9,
            Key::K => 10,
            Key::L => 11,
            Key::M => 12,
            Key::N => 13,
            Key::O => 14,
            Key::P => 15,
            Key::Q => 16,
            Key::R => 17,
            Key::S => 18,
            Key::T => 19,
            Key::U => 20,
            Key::V => 21,
            Key::W => 22,
            Key::X => 23,
            Key::Y => 24,
            Key::Z => 25,
            _ => -1,
        }
    }
}

/// The direction a key moves in: the vi keys and the arrows.
pub open spec fn spec_key_to_dir(key: Key) -> Option<Direction> {
    match key {
        Key::H | Key::Left => Some(Direction::West),
        Key::L | Key::Right => Some(Direction::East),
        Key::K | Key::Up => Some(Direction::North),
        Key::J | Key::Down => Some(Direction::South),
        Key::Y => Some(Direction::NorthWest),
        Key::U => Some(Direction::NorthEast),
        Key::B => Some(Direction::SouthWest),
        Key::N => Some(Direction::SouthEast),
        _ => None,
    }
}

/// The direction a key moves in: the vi keys and the arrows.
pub fn key_to_dir(key: Key) -> (r: Option<Direction>)
    ensures
        r == spec_key_to_dir(key),
{
    match key {
        Key::H | Key::Left => Some(Direction::West),
        Key::L | Key::Right => Some(Direction::East),
        Key::K | Key::Up => Some(Direction::North),
        Key::J | Key::Down => Some(Direction::South),
        Key::Y => Some(Direction::NorthWest),
        Key::U => Some(Direction::NorthEast),
        Key::B => Some(Direction::SouthWest),
        Key::N => Some(Direction::SouthEast),
        _ => None,
    }
}

/// The lower-case letter of a backpack slot below 26, in alphabetical
/// order except that slot 21 shows as 'b' (not 'v').
pub open spec fn lower_letter(idx: int) -> char {
    if idx == 0 {
        'a'
    } else if idx == 1 {
        'b'
    } else if idx == 2 {
        'c'
    } else if idx == 3 {
        'd'
    } else if idx == 4 {
        'e'
    } else if idx == 5 {
        'f'
    } else if idx == 6 {
        'g'
    } else if idx == 7 {
        'h'
    } else if idx == 8 {
        'i'
    } else if idx == 9 {
        'j'
    } else if idx == 10 {
        'k'
    } else if idx == 11 {
        'l'
    } else if idx == 12 {
        'm'
    } else if idx == 13 {
        'n'
    } else if idx == 14 {
        'o'
    } else if idx == 15 {
        'p'
    } else if idx == 16 {
        'q'
    } else if idx == 17 {
        'r'
    } else if idx == 18 {
        's'
    } else if idx == 19 {
        't'
    } else if idx == 20 {
        'u'
    } else if idx == 21 {
        'b'
    } else if idx == 22 {
        'w'
    } else if idx == 23 {
        'x'
    } else if idx == 24 {
        'y'
    } else {
        'z'
    }
}

/// The ASCII upper case of a character: 'a' to 'z' become 'A' to 'Z',
/// every other character stays.
pub open spec fn spec_ascii_upper(c: char) -> char {
    if 'a' <= c <= 'z' {
        ((c as u32) - 32) as char
    } else {
        c
    }
}

/// The ASCII upper case of a character, as std's `char::to_ascii_uppercase`
/// gives it: 'a' to 'z' become 'A' to 'Z' and every other character stays.
pub(crate) fn ascii_uppercase(c: char) -> (r: char)
    ensures
        r == spec_ascii_upper(c),
{
    if 'a' <= c && c <= 'z' {
        ((c as u8) - 32) as char
    } else {
        c
    }
}

/// The letter of a backpack slot: lower case for the first 26 slots; a
/// slot past them has the upper case of the letter 26 slots before it, so
/// slots 26 to 51 are 'A' to 'Z' and the letters repeat in upper case after.
pub open spec fn slot_letter(idx: int) -> char
    decreases idx,
{
    if idx > 25 {
        spec_ascii_upper(slot_letter(idx - 26))
    } else {
        lower_letter(idx)
    }
}

/// Slots are lettered in alphabetical order, lower case first and then
/// upper case, except slot 21, which shows 'b' (and slot 47, 'B'); the
/// letters repeat in upper case past slot 51.
pub proof fn lemma_slot_letters_alphabetical(idx: int)
    requires
        0 <= idx,
    ensures
        idx < 26 && idx != 21 ==> slot_letter(idx) as int == 'a' as int + idx,
        26 <= idx < 52 && idx != 47 ==> slot_letter(idx) as int == 'A' as int + (idx - 26),
        idx == 21 ==> slot_letter(idx) == 'b',
        idx == 47 ==> slot_letter(idx) == 'B',
        idx >= 52 ==> slot_letter(idx) == slot_letter(idx - 26),
    decreases idx,
{
    if idx >= 52 {
        lemma_slot_letters_alphabetical(idx - 26);
        reveal_with_fuel(slot_letter, 3);
    } else if idx >= 26 {
        reveal_with_fuel(slot_letter, 2);
    }
}

/// The letter of a backpack slot; see `slot_letter`.
pub fn index_to_letter(idx: u8) -> (c: char)
    ensures
        c == slot_letter(idx as int),
    decreases idx,
{
    if idx > 25 {
        ascii_uppercase(index_to_letter(idx - 26))
    } else {
        match idx {
            0 => 'a',
            1 => 'b',
            2 => 'c',
            3 => 'd',
            4 => 'e',
            5 => 'f',
            6 => 'g',
            7 => 'h',
            8 => 'i',
            9 => 'j',
            10 => 'k',
            11 => 'l',
            12 => 'm',
            13 => 'n',
            14 => 'o',
            15 => 'p',
            16 => 'q',
            17 => 'r',
            18 => 's',
            19 => 't',
            20 => 'u',
            21 => 'b',
            22 => 'w',
            23 => 'x',
            24 => 'y',
            _ => 'z',
        }
    }
}

/// What a menu made of the last key.
#[derive(Copy, Clone, Debug, PartialEq, Eq, Structural)]
pub enum ItemMenuResult {
    Cancel,
    NoResponse,
    Selected,
}

/// The entries of the main menu.
#[derive(Copy, Clone, Debug, PartialEq, Eq, Structural)]
pub enum MainMenuState {
    New,
    Load,
    Quit,
}

/// The main menu's answer to a key: an entry chosen, or the entry now
/// highlighted.
#[derive(Copy, Clone, Debug, PartialEq, Eq, Structural)]
pub enum MainMenuResult {
    Selected(MainMenuState),
    NoSelection(MainMenuState),
}

/// The entry below, wrapping around.
pub open spec fn menu_next(s: MainMenuState) -> MainMenuState {
    match s {
        MainMenuState::New => MainMenuState::Load,
        MainMenuState::Load => MainMenuState::Quit,
        MainMenuState::Quit => MainMenuState::New,
    }
}

/// The entry above, wrapping around.
pub open spec fn menu_prev(s: MainMenuState) -> MainMenuState {
    match s {
        MainMenuState::New => MainMenuState::Quit,
        MainMenuState::Load => MainMenuState::New,
        MainMenuState::Quit => MainMenuState::Load,
    }
}

/// The main menu's answer to a key: down (or j) highlights the entry below,
/// up (or k) the one above, return or space chooses the highlighted one;
/// any other key, or none, changes nothing.
pub fn main_menu_input(current: MainMenuState, key: Option<Key>) -> (r: MainMenuResult)
    ensures
        r == match key {
            Some(Key::Down) | Some(Key::J) => MainMenuResult::NoSelection(menu_next(current)),
            Some(Key::Up) | Some(Key::K) => MainMenuResult::NoSelection(menu_prev(current)),
            Some(Key::Return) | Some(Key::Space) => MainMenuResult::Selected(current),
            _ => MainMenuResult::NoSelection(current),
        },
{
    match key {
        Some(Key::Down) | Some(Key::J) => {
            let next = match current {
                MainMenuState::New => MainMenuState::Load,
                MainMenuState::Load => MainMenuState::Quit,
                MainMenuState::Quit => MainMenuState::New,
            };
            MainMenuResult::NoSelection(next)
        },
        Some(Key::Up) | Some(Key::K) => {
            let prev = match current {
                MainMenuState::New => MainMenuState::Quit,
                MainMenuState::Load => MainMenuState::New,
                MainMenuState::Quit => MainMenuState::Load,
            };
            MainMenuResult::NoSelection(prev)
        },
        Some(Key::Return) | Some(Key::Space) => MainMenuResult::Selected(current),
        _ => MainMenuResult::NoSelection(current),
    }
}

/// Moving down and then up in the main menu, or up and then down, comes
/// back to the same entry; three moves the same way go all around.
pub proof fn lemma_menu_moves(s: MainMenuState)
    ensures
        menu_prev(menu_next(s)) == s,
        menu_next(menu_prev(s)) == s,
        menu_next(menu_next(menu_next(s))) == s,
        menu_prev(menu_prev(menu_prev(s))) == s,
{
}

/// The answer to a yes-or-no question: y is yes, n is no, escape cancels;
/// any other key, or none, is no answer yet.
pub fn ask_bool_answer(key: Option<Key>) -> (r: (ItemMenuResult, bool))
    ensures
        r == match key {
            Some(Key::Y) => (ItemMenuResult::Selected, true),
            Some(Key::N) => (ItemMenuResult::Selected, false),
            Some(Key::Escape) => (ItemMenuResult::Cancel, false),
            _ => (ItemMenuResult::NoResponse, false),
        },
{
    match key {
        Some(Key::Y) => (ItemMenuResult::Selected, true),
        Some(Key::N) => (ItemMenuResult::Selected, false),
        Some(Key::Escape) => (ItemMenuResult::Cancel, false),
        _ => (ItemMenuResult::NoResponse, false),
    }
}

/// The slot a letter key chooses in the backpack: its place in the
/// alphabet, 27 more with shift held.
pub open spec fn chosen_slot(key: Key, shift: bool) -> int {
    if shift {
        letter_index(key) + 27
    } else {
        letter_index(key)
    }
}

/// Whether the inventory, as (slot, item) pairs, has an item in the slot.
pub open spec fn has_slot<Item>(items: Seq<(u8, Item)>, slot: int) -> bool {
    exists|k: int| 0 <= k < items.len() && items[k].0 == slot
}

/// The last item listed in the slot.
pub open spec fn last_in_slot<Item>(items: Seq<(u8, Item)>, slot: int) -> Item
    decreases items.len(),
{
    if items.len() == 0 {
        arbitrary()
    } else if items.last().0 == slot {
        items.last().1
    } else {
        last_in_slot(items.drop_last(), slot)
    }
}

/// The inventory menu's answer to a key, for the items as (slot, item)
/// pairs: an empty backpack cancels; no key is no answer yet; escape
/// cancels; a letter chooses the item in its slot (see `chosen_slot`), and
/// is no answer when the slot is empty; any other key is no answer.
pub fn select_item<Item: Copy>(items: &Vec<(u8, Item)>, key: Option<Key>, shift: bool) -> (r: (
    ItemMenuResult,
    Option<Item>,
))
    ensures
        items@.len() == 0 ==> r == (ItemMenuResult::Cancel, None::<Item>),
        items@.len() > 0 ==> r == match key {
            None => (ItemMenuResult::NoResponse, None::<Item>),
            Some(Key::Escape) => (ItemMenuResult::Cancel, None),
            Some(k) => if letter_index(k) >= 0 && has_slot(items@, chosen_slot(k, shift)) {
                (ItemMenuResult::Selected, Some(last_in_slot(items@, chosen_slot(k, shift))))
            } else {
                (ItemMenuResult::NoResponse, None)
            },
        },
{
    if items.len() == 0 {
        return (ItemMenuResult::Cancel, None);
    }
    match key {
        None => (ItemMenuResult::NoResponse, None),
        Some(Key::Escape) => (ItemMenuResult::Cancel, None),
        Some(k) => {
            let selected = k.letter_option();
            if selected < 0 {
                (ItemMenuResult::NoResponse, None)
            } else {
                let mut slot = selected as u8;
                if shift {
                    slot = slot + 27;
                }
                let mut found: Option<Item> = None;
                for j in 0..items.len()
                    invariant
                        slot == chosen_slot(k, shift),
                        found is Some <==> has_slot(items@.take(j as int), slot as int),
                        found is Some ==> found == Some(
                            last_in_slot(items@.take(j as int), slot as int),
                        ),
                {
                    let ghost prefix = items@.take(j as int);
                    assert(items@.take(j as int + 1).drop_last() == prefix);
                    if items[j].0 == slot {
                        found = Some(items[j].1);
                    }
                    proof {
                        let next = items@.take(j as int + 1);
                        if has_slot(prefix, slot as int) {
                            let w = choose|w: int| 0 <= w < prefix.len() && prefix[w].0 == slot;
                            assert(next[w] == prefix[w]);
                        }
                        if has_slot(next, slot as int) && next.last().0 != slot {
                            let w = choose|w: int| 0 <= w < next.len() && next[w].0 == slot;
                            assert(prefix[w] == next[w]);
                        }
                        if next.last().0 == slot {
                            assert(next[j as int].0 == slot);
                        }
                    }
                }
                assert(items@.take(items@.len() as int) == items@);
                match found {
                    None => (ItemMenuResult::NoResponse, None),
                    Some(item) => (ItemMenuResult::Selected, Some(item)),
                }
            }
        },
    }
}

/// The color of the health bar.
#[derive(Copy, Clone, Debug, PartialEq, Eq, Structural)]
pub enum BarColor {
    Red,
    Yellow,
    Green,
}

/// The color of the health bar: red below a third of the maximum, yellow
/// below three quarters, green else (dividing with Rust's rounding toward
/// zero).
pub open spec fn bar_color(hp: int, max_hp: int) -> BarColor {
    if hp < div_toward_zero(max_hp, 3) {
        BarColor::Red
    } else if hp < div_toward_zero(3 * max_hp, 4) {
        BarColor::Yellow
    } else {
        BarColor::Green
    }
}

/// For a maximum of zero or more: the bar is red when three times the
/// health (plus three, as the third is rounded down) is at most the
/// maximum, green when four times the health (plus four) is more than
/// three times the maximum, and yellow in between; more health never turns
/// the bar from green back to yellow or red.
pub proof fn lemma_bar_color_by_fractions(hp: int, more: int, max_hp: int)
    requires
        max_hp >= 0,
        more >= 0,
    ensures
        bar_color(hp, max_hp) == BarColor::Red <==> 3 * hp + 3 <= max_hp,
        bar_color(hp, max_hp) == BarColor::Green <==> 4 * hp + 4 > 3 * max_hp,
        bar_color(hp, max_hp) == BarColor::Green ==> bar_color(hp + more, max_hp)
            == BarColor::Green,
        bar_color(hp + more, max_hp) == BarColor::Red ==> bar_color(hp, max_hp) == BarColor::Red,
{
}

/// The color of the health bar; see `bar_color`.
pub fn hp_bar_color(hp: i32, max_hp: i32) -> (c: BarColor)
    requires
        i32::MIN <= 3 * max_hp <= i32::MAX,
    ensures
        c == bar_color(hp as int, max_hp as int),
{
    if hp < max_hp / 3 {
        BarColor::Red
    } else if hp < 3 * max_hp / 4 {
        BarColor::Yellow
    } else {
        BarColor::Green
    }
}

/// Where a cursor goes on a key: one step in the key's direction, unless
/// that leaves the screen above its bottom rows; other keys leave it.
pub fn move_cursor(current: (i32, i32), key: Key, screen_width: i32, screen_height: i32) -> (r: (
    i32,
    i32,
))
    requires
        i32::MIN < current.0 < i32::MAX,
        i32::MIN < current.1 < i32::MAX,
        screen_height >= i32::MIN + BOTTOM_HEIGHT,
    ensures
        r == match spec_key_to_dir(key) {
            Some(dir) => {
                let t = ((current.0 + dir.dx()) as i32, (current.1 + dir.dy()) as i32);
                if 0 <= t.0 < screen_width && 0 <= t.1 < screen_height - BOTTOM_HEIGHT {
                    t
                } else {
                    current
                }
            },
            None => current,
        },
{
    match key_to_dir(key) {
        Some(dir) => {
            let (dx, dy) = crate::positions::dir_to_dx_dy(dir);
            let t = (current.0 + dx, current.1 + dy);
            if t.0 >= 0 && t.0 < screen_width && t.1 >= 0 && t.1 < screen_height - BOTTOM_HEIGHT {
                t
            } else {
                current
            }
        },
        None => current,
    }
}

/// What the player does while choosing a target.
pub struct TargetingInput {
    pub key: Option<Key>,
    pub left_click: bool,
    pub mouse: ScreenPosition,
}

/// The target cursor: its range, where the mouse was last seen, and where
/// the cursor is, in screen cells.
#[derive(Copy, Clone, Debug, PartialEq, Eq, Structural)]
pub struct TargetingInfo {
    pub range: i32,
    pub last_mouse_pos: ScreenPosition,
    pub current_pos: ScreenPosition,
}

/// Whether the cell is one of the cells that can be targeted.
pub open spec fn is_available(cells: Seq<ScreenPosition>, pos: ScreenPosition) -> bool {
    cells.contains(pos)
}

impl TargetingInfo {
    /// A cursor of the given range at `start`, with the mouse at `mouse`.
    pub fn new(range: i32, start: ScreenPosition, mouse: ScreenPosition) -> (r: Self)
        ensures
            r == (TargetingInfo { range, last_mouse_pos: mouse, current_pos: start }),
    {
        TargetingInfo { range, last_mouse_pos: mouse, current_pos: start }
    }

    /// Where the cursor goes: to the mouse when it moved or clicked, else
    /// one step for a direction key (see `move_cursor`).
    pub open spec fn next_pos(self, input: TargetingInput, screen_width: i32, screen_height: i32) -> ScreenPosition {
        if self.last_mouse_pos != input.mouse || input.left_click {
            input.mouse
        } else {
            match input.key {
                Some(k) => match spec_key_to_dir(k) {
                    Some(dir) => {
                        let t = ScreenPosition {
                            x: (self.current_pos.x + dir.dx()) as i32,
                            y: (self.current_pos.y + dir.dy()) as i32,
                        };
                        if 0 <= t.x < screen_width && 0 <= t.y < screen_height - BOTTOM_HEIGHT {
                            t
                        } else {
                            self.current_pos
                        }
                    },
                    None => self.current_pos,
                },
                None => self.current_pos,
            }
        }
    }

    /// One frame of choosing a target among the `available` cells.
    /// Escape cancels at once. Else the cursor moves (see `next_pos`);
    /// on an available cell a click, return or space chooses it, on any
    /// other cell return or a click cancels; anything else is no answer
    /// yet. Returns the answer and the chosen cell.
    pub fn step(
        &mut self,
        input: TargetingInput,
        screen_width: i32,
        screen_height: i32,
        available: &Vec<ScreenPosition>,
    ) -> (r: (ItemMenuResult, Option<ScreenPosition>))
        requires
            i32::MIN < old(self).current_pos.x < i32::MAX,
            i32::MIN < old(self).current_pos.y < i32::MAX,
            screen_height >= i32::MIN + BOTTOM_HEIGHT,
        ensures
            input.key == Some(Key::Escape) ==> r == (ItemMenuResult::Cancel, None::<ScreenPosition>)
                && *final(self) == *old(self),
            input.key != Some(Key::Escape) ==> {
                let pos = old(self).next_pos(input, screen_width, screen_height);
                let chooses = input.left_click || input.key == Some(Key::Return) || input.key
                    == Some(Key::Space);
                let cancels = input.left_click || input.key == Some(Key::Return);
                &&& final(self).current_pos == pos
                &&& final(self).range == old(self).range
                &&& final(self).last_mouse_pos == input.mouse
                &&& r == (if is_available(available@, pos) {
                    if chooses {
                        (ItemMenuResult::Selected, Some(pos))
                    } else {
                        (ItemMenuResult::NoResponse, None)
                    }
                } else if cancels {
                    (ItemMenuResult::Cancel, None)
                } else {
                    (ItemMenuResult::NoResponse, None)
                })
            },
    {
        if input.key == Some(Key::Escape) {
            return (ItemMenuResult::Cancel, None);
        }
        if self.last_mouse_pos != input.mouse {
            self.last_mouse_pos = input.mouse;
            self.current_pos = input.mouse;
        } else if input.left_click {
            self.current_pos = input.mouse;
        } else if let Some(key) = input.key {
            let (x, y) = move_cursor(
                (self.current_pos.x, self.current_pos.y),
                key,
                screen_width,
                screen_height,
            );
            self.current_pos = ScreenPosition { x, y };
        }
        let mut valid_target = false;
        for k in 0..available.len()
            invariant
                valid_target == available@.take(k as int).contains(self.current_pos),
        {
            proof {
                let prefix = available@.take(k as int);
                let next = available@.take(k as int + 1);
                if prefix.contains(self.current_pos) {
                    let w = choose|w: int| 0 <= w < prefix.len() && prefix[w] == self.current_pos;
                    assert(next[w] == prefix[w]);
                }
                if next.contains(self.current_pos) {
                    let w = choose|w: int| 0 <= w < next.len() && next[w] == self.current_pos;
                    if w < k {
                        assert(prefix[w] == next[w]);
                    }
                }
            }
            if available[k] == self.current_pos {
                valid_target = true;
                assert(available@.take(k as int + 1)[k as int] == self.current_pos);
            }
        }
        assert(available@.take(available@.len() as int) == available@);
        if valid_target {
            if input.left_click || input.key == Some(Key::Return) || input.key == Some(Key::Space) {
                return (ItemMenuResult::Selected, Some(self.current_pos));
            }
        } else {
            if input.key == Some(Key::Return) || input.left_click {
                return (ItemMenuResult::Cancel, None);
            }
        }
        (ItemMenuResult::NoResponse, None)
    }
}

/// Where a tooltip goes next to the mouse: its width, the column its text
/// starts in, the column of its arrow, and whether it stands left of the
/// mouse (with the arrow "->") or right of it (with "<-").
#[derive(Copy, Clone, Debug, PartialEq, Eq, Structural)]
pub struct TooltipLayout {
    pub width: i32,
    pub text_x: i32,
    pub arrow_x: i32,
    pub left_of_mouse: bool,
}

/// The longest of the lengths, 0 for none.
pub open spec fn longest(lens: Seq<usize>) -> int
    decreases lens.len(),
{
    if lens.len() == 0 {
        0
    } else {
        let rest = longest(lens.drop_last());
        if lens.last() > rest {
            lens.last() as int
        } else {
            rest
        }
    }
}

/// The layout of a tooltip with lines of the given lengths for the mouse
/// at column `mouse_x`: three columns wider than its longest line; left of
/// the mouse when the mouse is right of column 40, else right of it.
pub fn tooltip_layout(line_lengths: &Vec<usize>, mouse_x: i32) -> (t: TooltipLayout)
    requires
        forall|k: int| 0 <= k < line_lengths@.len() ==> #[trigger] line_lengths@[k] <= i32::MAX - 3,
    ensures
        t.width == longest(line_lengths@) + 3,
        t.left_of_mouse == (mouse_x > 40),
        t.left_of_mouse ==> t.text_x == mouse_x - t.width && t.arrow_x == mouse_x - 2,
        !t.left_of_mouse ==> t.text_x == mouse_x + 4 && t.arrow_x == mouse_x + 1,
{
    let mut width: i32 = 0;
    for k in 0..line_lengths.len()
        invariant
            forall|j: int|
                0 <= j < line_lengths@.len() ==> #[trigger] line_lengths@[j] <= i32::MAX - 3,
            width == longest(line_lengths@.take(k as int)),
            0 <= width <= i32::MAX - 3,
    {
        assert(line_lengths@.take(k as int + 1).drop_last() == line_lengths@.take(k as int));
        let len = line_lengths[k] as i32;
        if width < len {
            width = len;
        }
    }
    assert(line_lengths@.take(line_lengths@.len() as int) == line_lengths@);
    width = width + 3;
    if mouse_x > 40 {
        TooltipLayout { width, text_x: mouse_x - width, arrow_x: mouse_x - 2, left_of_mouse: true }
    } else {
        TooltipLayout { width, text_x: mouse_x + 4, arrow_x: mouse_x + 1, left_of_mouse: false }
    }
}

} // verus!
