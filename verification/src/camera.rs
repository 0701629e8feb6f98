//! The camera: which part of the map the screen shows.

use crate::positions::{MapPosition, ScreenPosition};
use vstd::prelude::*;

verus! {

/// The screen shows the `w` by `h` map cells from `offset` on.
#[derive(Copy, Clone, Debug, PartialEq, Eq, Structural)]
pub struct Camera {
    pub w: i32,
    pub h: i32,
    pub offset: MapPosition,
    pub old_player_pos: MapPosition,
}

/// Coordinates small enough that moving between map and screen cannot
/// overflow.
pub open spec fn small(v: int) -> bool {
    -1_000_000 <= v <= 1_000_000
}

impl Camera {
    /// Where a map position is on the screen.
    pub open spec fn to_screen(&self, pos: MapPosition) -> ScreenPosition {
        ScreenPosition {
            x: (pos.x - self.offset.x) as i32,
            y: (pos.y - self.offset.y) as i32,
        }
    }

    /// Which map position a screen cell shows.
    pub open spec fn to_map(&self, pos: ScreenPosition) -> MapPosition {
        MapPosition { x: (pos.x + self.offset.x) as i32, y: (pos.y + self.offset.y) as i32 }
    }

    /// A camera showing `w` by `h` cells from the map's corner.
    pub fn new(w: i32, h: i32) -> (c: Camera)
        ensures
            c == (Camera {
                w,
                h,
                offset: MapPosition { x: 0, y: 0 },
                old_player_pos: MapPosition { x: 0, y: 0 },
            }),
    {
        Camera {
            w,
            h,
            offset: MapPosition { x: 0, y: 0 },
            old_player_pos: MapPosition { x: 0, y: 0 },
        }
    }

    /// The number of columns shown.
    pub fn width(&self) -> (r: i32)
        ensures
            r == self.w,
    {
        self.w
    }

    /// The number of rows shown.
    pub fn height(&self) -> (r: i32)
        ensures
            r == self.h,
    {
        self.h
    }

    /// Whether the map position is on the screen.
    pub open spec fn shows(&self, pos: MapPosition) -> bool {
        0 <= pos.x - self.offset.x < self.w && 0 <= pos.y - self.offset.y < self.h
    }

    /// Whether the camera's numbers are small enough to compute with.
    pub open spec fn valid(&self) -> bool {
        &&& 0 <= self.w <= 1_000_000
        &&& 0 <= self.h <= 1_000_000
        &&& -2_000_000 <= self.offset.x <= 2_000_000
        &&& -2_000_000 <= self.offset.y <= 2_000_000
    }

    /// Centers the view on the player.
    pub fn center(&mut self, player_pos: MapPosition)
        requires
            old(self).valid(),
            small(player_pos.x as int),
            small(player_pos.y as int),
        ensures
            final(self).valid(),
            final(self).w == old(self).w,
            final(self).h == old(self).h,
            final(self).offset == (MapPosition {
                x: (player_pos.x - old(self).w / 2) as i32,
                y: (player_pos.y - old(self).h / 2) as i32,
            }),
            final(self).old_player_pos == player_pos,
    {
        self.offset = MapPosition { x: player_pos.x - self.w / 2, y: player_pos.y - self.h / 2 };
        self.old_player_pos = player_pos;
    }

    /// Where a map position is on the screen.
    pub fn transform_map_pos(&self, pos: MapPosition) -> (s: ScreenPosition)
        requires
            self.valid(),
            small(pos.x as int),
            small(pos.y as int),
        ensures
            s == self.to_screen(pos),
    {
        ScreenPosition { x: pos.x - self.offset.x, y: pos.y - self.offset.y }
    }

    /// Which map position a screen cell shows.
    pub fn transform_screen_pos(&self, pos: ScreenPosition) -> (m: MapPosition)
        requires
            self.valid(),
            small(pos.x as int),
            small(pos.y as int),
        ensures
            m == self.to_map(pos),
    {
        MapPosition { x: pos.x + self.offset.x, y: pos.y + self.offset.y }
    }

    /// Whether the screen shows the map position.
    pub fn is_in_view(&self, pos: MapPosition) -> (r: bool)
        requires
            self.valid(),
            small(pos.x as int),
            small(pos.y as int),
        ensures
            r == self.shows(pos),
    {
        let s = self.transform_map_pos(pos);
        s.x >= 0 && s.x < self.w && s.y >= 0 && s.y < self.h
    }
}

/// Going from the map to the screen and back gives the same position, and
/// so does going from the screen to the map and back.
pub proof fn lemma_camera_round_trip(c: Camera, pos: MapPosition, cell: ScreenPosition)
    requires
        c.valid(),
        small(pos.x as int),
        small(pos.y as int),
        small(cell.x as int),
        small(cell.y as int),
    ensures
        c.to_map(c.to_screen(pos)) == pos,
        c.to_screen(c.to_map(cell)) == cell,
{
}

/// Once the camera is centered on the player, the player is in view, in
/// the middle of the screen (for a camera that shows at least one cell).
pub proof fn lemma_centered_player_in_view(c: Camera, player_pos: MapPosition)
    requires
        c.valid(),
        1 <= c.w,
        1 <= c.h,
        small(player_pos.x as int),
        small(player_pos.y as int),
    ensures
        ({
            let centered = Camera {
                offset: MapPosition {
                    x: (player_pos.x - c.w / 2) as i32,
                    y: (player_pos.y - c.h / 2) as i32,
                },
                old_player_pos: player_pos,
                ..c
            };
            &&& centered.shows(player_pos)
            &&& centered.to_screen(player_pos) == (ScreenPosition { x: (c.w / 2) as i32, y: (c.h / 2) as i32 })
        }),
{
}

} // verus!
