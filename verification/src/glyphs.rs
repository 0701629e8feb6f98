//! The glyphs the map is drawn with.

use crate::map::{wall_arms, GameMap, TileType, WallType};
use vstd::prelude::*;

verus! {

/// The code page 437 glyph that bracket-lib's `to_cp437` gives a
/// character.
pub uninterp spec fn cp437(c: char) -> u16;

/// Calls bracket-lib's `to_cp437`, a table from characters to code page 437
/// glyphs. Claimed: the glyph depends on the character alone; the table
/// itself is not stated.
#[verifier::external_body]
pub(crate) fn to_cp437(c: char) -> (r: u16)
    ensures
        r == cp437(c),
{
    bracket_lib::prelude::to_cp437(c)
}

/// The character a wall is drawn with, from its shape and the revealed
/// tiles next to it: 1 left, 2 right, 4 above, 8 below. Tees and crosses
/// lose the arms that lead to unrevealed tiles.
pub open spec fn wall_glyph_char(walltype: WallType, walls: u32) -> char {
    match walltype {
        WallType::Vertical => '│',
        WallType::Horizontal => '─',
        WallType::TopLeftCorner => '┌',
        WallType::TopRightCorner => '┐',
        WallType::BottomLeftCorner => '└',
        WallType::BottomRightCorner => '┘',
        WallType::TeeDown => {
            let m = walls & 11u32;
            if m == 9 {
                '┐'
            } else if m == 10 {
                '┌'
            } else if m == 11 {
                '┬'
            } else {
                '─'
            }
        },
        WallType::TeeUp => {
            let m = walls & 7u32;
            if m == 5 {
                '┘'
            } else if m == 6 {
                '└'
            } else if m == 7 {
                '┴'
            } else {
                '─'
            }
        },
        WallType::TeeRight => {
            let m = walls & 14u32;
            if m == 6 {
                '└'
            } else if m == 10 {
                '┌'
            } else if m == 14 {
                '├'
            } else {
                '│'
            }
        },
        WallType::TeeLeft => {
            let m = walls & 13u32;
            if m == 5 {
                '┘'
            } else if m == 9 {
                '┐'
            } else if m == 13 {
                '┤'
            } else {
                '│'
            }
        },
        WallType::Cross => {
            let m = walls & 15u32;
            if m == 4 {
                '┴'
            } else if m == 5 {
                '┘'
            } else if m == 6 {
                '└'
            } else if m == 7 {
                '┴'
            } else if m == 8 {
                '┬'
            } else if m == 9 {
                '┐'
            } else if m == 10 {
                '┌'
            } else if m == 11 {
                '┬'
            } else if m == 12 {
                '│'
            } else if m == 13 {
                '┤'
            } else if m == 14 {
                '├'
            } else if m == 15 {
                '┼'
            } else {
                '─'
            }
        },
        WallType::Pilar => '○',
    }
}

/// The directions in which the lines of a box-drawing character reach: 1
/// for left, 2 for right, 4 for up, 8 for down; -1 for any other
/// character.
pub open spec fn box_char_arms(c: char) -> int {
    if c == '─' {
        (1 + 2) as int
    } else if c == '│' {
        (4 + 8) as int
    } else if c == '┌' {
        (2 + 8) as int
    } else if c == '┐' {
        (1 + 8) as int
    } else if c == '└' {
        (2 + 4) as int
    } else if c == '┘' {
        (1 + 4) as int
    } else if c == '┬' {
        (1 + 2 + 8) as int
    } else if c == '┴' {
        (1 + 2 + 4) as int
    } else if c == '├' {
        (2 + 4 + 8) as int
    } else if c == '┤' {
        (1 + 4 + 8) as int
    } else if c == '┼' {
        (1 + 2 + 4 + 8) as int
    } else {
        -1
    }
}

/// With every tile around it revealed, a wall is drawn with the character
/// whose lines reach the directions of the wall's arms.
pub proof fn lemma_fully_seen_wall_drawn_with_its_arms(w: WallType)
    requires
        w != WallType::Pilar,
    ensures
        box_char_arms(wall_glyph_char(w, 15)) == wall_arms(w),
{
    assert(15u32 & 11u32 == 11u32) by (bit_vector);
    assert(15u32 & 7u32 == 7u32) by (bit_vector);
    assert(15u32 & 14u32 == 14u32) by (bit_vector);
    assert(15u32 & 13u32 == 13u32) by (bit_vector);
    assert(15u32 & 15u32 == 15u32) by (bit_vector);
}

/// The character a wall is drawn with; see `wall_glyph_char`.
pub fn wall_glyph(walltype: WallType, walls: u32) -> (c: char)
    ensures
        c == wall_glyph_char(walltype, walls),
{
    match walltype {
        WallType::Vertical => '│',
        WallType::Horizontal => '─',
        WallType::TopLeftCorner => '┌',
        WallType::TopRightCorner => '┐',
        WallType::BottomLeftCorner => '└',
        WallType::BottomRightCorner => '┘',
        WallType::TeeDown => match walls & 11u32 {
            9 => '┐',
            10 => '┌',
            11 => '┬',
            _ => '─',
        },
        WallType::TeeUp => match walls & 7u32 {
            5 => '┘',
            6 => '└',
            7 => '┴',
            _ => '─',
        },
        WallType::TeeRight => match walls & 14u32 {
            6 => '└',
            10 => '┌',
            14 => '├',
            _ => '│',
        },
        WallType::TeeLeft => match walls & 13u32 {
            5 => '┘',
            9 => '┐',
            13 => '┤',
            _ => '│',
        },
        WallType::Cross => match walls & 15u32 {
            4 => '┴',
            5 => '┘',
            6 => '└',
            7 => '┴',
            8 => '┬',
            9 => '┐',
            10 => '┌',
            11 => '┬',
            12 => '│',
            13 => '┤',
            14 => '├',
            15 => '┼',
            _ => '─',
        },
        WallType::Pilar => '○',
    }
}

impl<Entity> GameMap<Entity> {
    /// Which tiles next to `(x, y)` are revealed: 1 left, 2 right, 4 above,
    /// 8 below. The right and lower neighbours count only away from the
    /// last two columns and rows.
    pub open spec fn revealed_neighbours(&self, idx: int, x: int, y: int) -> u32 {
        let w = self.width as int;
        let h = self.height as int;
        let r = self.revealed_tiles@;
        ((if x > 0 && r[idx - 1] {
            1int
        } else {
            0int
        }) + (if x < w - 2 && r[idx + 1] {
            2int
        } else {
            0int
        }) + (if y > 0 && r[idx - w] {
            4int
        } else {
            0int
        }) + (if y < h - 2 && r[idx + w] {
            8int
        } else {
            0int
        })) as u32
    }

    /// The glyph of the wall at `(x, y)`, index `idx`: its shape's
    /// character (see `wall_glyph_char`), a pillar as glyph 9.
    pub fn get_glyph_for_wall(&self, idx: usize, x: i32, y: i32, walltype: WallType) -> (g: u16)
        requires
            self.wf(),
            self.spec_in_bounds(x as int, y as int),
            idx == self.spec_idx(x as int, y as int),
        ensures
            g == (if walltype == WallType::Pilar {
                9u16
            } else {
                cp437(
                    wall_glyph_char(walltype, self.revealed_neighbours(idx as int, x as int, y as int)),
                )
            }),
    {
        proof {
            crate::map::lemma_idx_in_range(
                self.width as int,
                self.height as int,
                x as int,
                y as int,
            );
        }
        proof {
            let (w, h, xi, yi) = (self.width as int, self.height as int, x as int, y as int);
            assert(yi > 0 ==> yi * w + xi - w >= 0) by (nonlinear_arith)
                requires
                    0 <= xi,
                    1 <= w,
            ;
            assert(yi < h - 2 ==> yi * w + xi + w < w * h) by (nonlinear_arith)
                requires
                    0 <= xi < w,
                    0 <= yi,
            ;
            assert(xi < w - 2 ==> yi * w + xi + 1 < w * h) by (nonlinear_arith)
                requires
                    0 <= xi < w,
                    0 <= yi < h,
            ;
        }
        let mut walls: u32 = 0;
        if x > 0 && self.revealed_tiles[idx - 1] {
            walls += 1;
        }
        if x < self.width - 2 && self.revealed_tiles[idx + 1] {
            walls += 2;
        }
        if y > 0 && self.revealed_tiles[idx - self.width as usize] {
            walls += 4;
        }
        if y < self.height - 2 && self.revealed_tiles[idx + self.width as usize] {
            walls += 8;
        }
        match walltype {
            WallType::Pilar => 9,
            _ => to_cp437(wall_glyph(walltype, walls)),
        }
    }

    /// The glyph a revealed tile is drawn with: `·` for floor, `#` for
    /// stone, and the wall's glyph for walls.
    pub fn tile_glyph(&self, idx: usize, x: i32, y: i32) -> (g: u16)
        requires
            self.wf(),
            self.spec_in_bounds(x as int, y as int),
            idx == self.spec_idx(x as int, y as int),
        ensures
            g == match self.tiles@[idx as int] {
                TileType::Floor => cp437('·'),
                TileType::Stone => cp437('#'),
                TileType::Wall(walltype) => if walltype == WallType::Pilar {
                    9u16
                } else {
                    cp437(
                        wall_glyph_char(
                            walltype,
                            self.revealed_neighbours(idx as int, x as int, y as int),
                        ),
                    )
                },
            },
    {
        proof {
            crate::map::lemma_idx_in_range(
                self.width as int,
                self.height as int,
                x as int,
                y as int,
            );
        }
        match self.tiles[idx] {
            TileType::Floor => to_cp437('·'),
            TileType::Wall(walltype) => self.get_glyph_for_wall(idx, x, y, walltype),
            TileType::Stone => to_cp437('#'),
        }
    }
}

} // verus!
