use rouge::explore::adjacent;
use bracket_lib::prelude::to_cp437;
use rouge::glyphs::wall_glyph;
use rouge::map::{GameMap, TileType, WallType, MAP_HEIGHT, MAP_WIDTH};
use rouge::camera::Camera;
use rouge::positions::{MapPosition, Point, ScreenPosition};
use rouge::rect::Rect;

#[test]
fn fix_walls() {
    let mut map: GameMap<u64> = GameMap::new(5, 5);
    map.fix_walls();
    assert_eq!(map.tiles, vec![TileType::Stone; 5 * 5]);
    for tile in map.tiles.iter_mut() {
        *tile = TileType::Floor;
    }
    /* .....
     * ...--
     * .---
     * .|...
     * .....
     */
    map.tiles[2 * 5 + 3] = TileType::Wall(WallType::Cross);
    map.tiles[2 * 5 + 4] = TileType::Wall(WallType::Cross);
    map.tiles[3 * 5 + 1] = TileType::Wall(WallType::Cross);
    map.tiles[3 * 5 + 2] = TileType::Wall(WallType::Cross);
    map.tiles[3 * 5 + 3] = TileType::Wall(WallType::Cross);
    map.tiles[3 * 5 + 4] = TileType::Wall(WallType::Cross);
    map.tiles[4 * 5 + 1] = TileType::Wall(WallType::Cross);
    map.fix_walls();
    assert_eq!(
        map.tiles[2 * 5 + 3],
        TileType::Wall(WallType::TopLeftCorner)
    );
    assert_eq!(map.tiles[2 * 5 + 4], TileType::Wall(WallType::Horizontal));
    assert_eq!(
        map.tiles[3 * 5 + 1],
        TileType::Wall(WallType::TopLeftCorner)
    );
    assert_eq!(map.tiles[3 * 5 + 2], TileType::Wall(WallType::Horizontal));
    assert_eq!(map.tiles[3 * 5 + 3], TileType::Wall(WallType::TeeUp));
    assert_eq!(map.tiles[4 * 5 + 1], TileType::Wall(WallType::Vertical));
}

#[test]
fn fix_walls_twice_changes_nothing() {
    let mut map: GameMap<u64> = GameMap::new(6, 5);
    for tile in map.tiles.iter_mut() {
        *tile = TileType::Floor;
    }
    for x in 1..5 {
        map.tiles[2 * 6 + x] = TileType::Wall(WallType::Cross);
    }
    map.tiles[6 + 2] = TileType::Wall(WallType::Cross);
    map.fix_walls();
    let once = map.tiles.clone();
    map.fix_walls();
    assert_eq!(once, map.tiles);
}

#[test]
fn lonely_wall_becomes_pillar() {
    let mut map: GameMap<u64> = GameMap::new(3, 3);
    for tile in map.tiles.iter_mut() {
        *tile = TileType::Floor;
    }
    map.tiles[4] = TileType::Wall(WallType::Cross);
    map.fix_walls();
    assert_eq!(map.tiles[4], TileType::Wall(WallType::Pilar));
}

#[test]
fn new_map_is_blank() {
    let map: GameMap<u64> = GameMap::new(4, 3);
    assert_eq!(map.tiles.len(), 12);
    assert!(map.tiles.iter().all(|t| *t == TileType::Wall(WallType::Cross)));
    assert!(map.revealed_tiles.iter().all(|r| !r));
    assert!(map.rooms.is_empty());
}

#[test]
fn generated_map_keeps_its_promises() {
    let map: GameMap<u64> = GameMap::new_map_rooms_and_corridors();
    assert_eq!(map.width, MAP_WIDTH);
    assert_eq!(map.height, MAP_HEIGHT);
    assert!(!map.rooms.is_empty() && map.rooms.len() <= 30);
    for (i, a) in map.rooms.iter().enumerate() {
        assert!(a.x2 - a.x1 >= 6 && a.x2 - a.x1 <= 9);
        assert!(a.y2 - a.y1 >= 6 && a.y2 - a.y1 <= 9);
        for (j, b) in map.rooms.iter().enumerate() {
            if i != j {
                assert!(!a.intersect(b));
            }
        }
        for y in a.y1 + 1..=a.y2 {
            for x in a.x1 + 1..=a.x2 {
                assert_eq!(map.tiles[(y * map.width + x) as usize], TileType::Floor);
            }
        }
    }
    for (i, t) in map.tiles.iter().enumerate() {
        assert_eq!(map.blocked[i], *t != TileType::Floor);
    }
    let mut again = map;
    let tiles = again.tiles.clone();
    again.fix_walls();
    assert_eq!(tiles, again.tiles);
}

#[test]
fn rooms_connect_by_floor() {
    let map: GameMap<u64> = GameMap::new_map_rooms_and_corridors();
    for k in 1..map.rooms.len() {
        let a = map.rooms[k - 1].center();
        let b = map.rooms[k].center();
        let floor = |x: i32, y: i32| map.tiles[(y * map.width + x) as usize] == TileType::Floor;
        let between = |p: i32, q: i32| if p <= q { p..=q } else { q..=p };
        let row_first = between(a.x, b.x).all(|x| floor(x, a.y)) && between(a.y, b.y).all(|y| floor(b.x, y));
        let column_first = between(a.y, b.y).all(|y| floor(a.x, y)) && between(a.x, b.x).all(|x| floor(x, b.y));
        assert!(row_first || column_first);
    }
}

#[test]
fn add_room_refuses_overlap() {
    let mut map: GameMap<u64> = GameMap::new(30, 20);
    assert!(map.add_room(Rect::with_size(1, 1, 6, 6), true));
    assert!(!map.add_room(Rect::with_size(5, 5, 6, 6), true));
    assert_eq!(map.rooms.len(), 1);
    assert!(map.add_room(Rect::with_size(15, 10, 6, 6), false));
    assert_eq!(map.rooms.len(), 2);
    // The corridor goes down from the first center, then across.
    assert_eq!(map.tiles[(10 * 30 + 4) as usize], TileType::Floor);
    assert_eq!(map.tiles[(13 * 30 + 10) as usize], TileType::Floor);
}

#[test]
fn index_round_trip() {
    let map: GameMap<u64> = GameMap::new(7, 4);
    for idx in 0..28 {
        let p = map.index_to_point2d(idx);
        assert_eq!(map.xy_to_idx(p.x, p.y), idx);
    }
    assert_eq!(map.map_pos_to_idx(MapPosition { x: 3, y: 2 }), 17);
}

#[test]
fn solid_outside_the_map() {
    let mut map: GameMap<u64> = GameMap::new(3, 3);
    map.tiles[4] = TileType::Floor;
    assert!(map.is_solid(Point::new(-1, 0)));
    assert!(map.is_solid(Point::new(3, 1)));
    assert!(map.is_solid(Point::new(0, 0)));
    assert!(!map.is_solid(Point::new(1, 1)));
    assert!(map.is_opaque(0));
    assert!(!map.is_opaque(4));
}

#[test]
fn exits_respect_blocks_and_search_mode() {
    let mut map: GameMap<u64> = GameMap::new(3, 3);
    map.blocked[1] = true;
    let exits = map.get_available_exits(4);
    assert_eq!(exits.len(), 7);
    assert_eq!(exits[0], (2, 101));
    assert_eq!(exits[1], (5, 100));
    assert!(!exits.iter().any(|e| e.0 == 1));
    map.search_only_revealed();
    assert!(map.get_available_exits(4).is_empty());
    map.revealed_tiles[3] = true;
    assert_eq!(map.get_available_exits(4), vec![(3, 100)]);
    map.search_also_revealed();
    assert_eq!(map.get_available_exits(0).len(), 2);
    assert!(!map.is_exit_valid(-1, 0));
    assert!(!map.is_exit_valid(1, 0));
    assert!(map.is_exit_valid(2, 2));
}

#[test]
fn closest_unknown_is_found_and_none_when_all_seen() {
    let mut map: GameMap<u64> = GameMap::new(5, 1);
    for t in map.tiles.iter_mut() {
        *t = TileType::Floor;
    }
    map.revealed_tiles = vec![true, true, true, false, false];
    let found = map.find_closest_unknown(MapPosition { x: 0, y: 0 });
    assert_eq!(found, Some(MapPosition { x: 2, y: 0 }));
    map.revealed_tiles = vec![true; 5];
    assert_eq!(map.find_closest_unknown(MapPosition { x: 0, y: 0 }), None);
}

#[test]
fn closest_unknown_does_not_walk_through_walls() {
    let mut map: GameMap<u64> = GameMap::new(5, 1);
    map.tiles = vec![TileType::Floor, TileType::Floor, TileType::Stone, TileType::Floor, TileType::Floor];
    map.revealed_tiles = vec![true, true, true, true, false];
    assert_eq!(map.find_closest_unknown(MapPosition { x: 0, y: 0 }), None);
    let found = map.find_closest_unknown(MapPosition { x: 3, y: 0 }).unwrap();
    assert!(adjacent_positions(found, MapPosition { x: 4, y: 0 }));
}

fn adjacent_positions(a: MapPosition, b: MapPosition) -> bool {
    let _ = adjacent;
    (a.x - b.x).abs() <= 1 && (a.y - b.y).abs() <= 1 && a != b
}

#[test]
fn wall_glyphs() {
    let mut map: GameMap<u64> = GameMap::new(3, 3);
    assert_eq!(map.get_glyph_for_wall(4, 1, 1, WallType::Pilar), 9);
    assert_eq!(map.get_glyph_for_wall(4, 1, 1, WallType::Vertical), 179);
    assert_eq!(to_cp437('│'), 179);
    assert_eq!(to_cp437('·'), 250);
    // A cross with only the tile above it revealed draws as an upward tee.
    map.revealed_tiles[1] = true;
    assert_eq!(map.get_glyph_for_wall(4, 1, 1, WallType::Cross), to_cp437('┴'));
    map.tiles[4] = TileType::Floor;
    assert_eq!(map.tile_glyph(4, 1, 1), 250);
    map.tiles[4] = TileType::Stone;
    assert_eq!(map.tile_glyph(4, 1, 1), to_cp437('#'));
    assert_eq!(wall_glyph(WallType::TeeDown, 11), '┬');
    assert_eq!(wall_glyph(WallType::TeeDown, 4), '─');
    assert_eq!(wall_glyph(WallType::Cross, 15), '┼');
}

#[test]
fn blockers_are_indexed_and_move() {
    let mut map: GameMap<u64> = GameMap::new(4, 4);
    map.index_blocker(MapPosition { x: 1, y: 2 }, 7, true);
    assert!(map.blocked[9]);
    assert!(map.dangerous[9]);
    assert_eq!(map.tile_content[9], vec![7]);
    assert!(map.move_blocker(9, 10));
    assert!(!map.blocked[9] && map.blocked[10]);
    assert!(!map.dangerous[9] && map.dangerous[10]);
    assert!(!map.move_blocker(9, 10));
    map.clear_blocker(MapPosition { x: 2, y: 2 });
    assert!(!map.blocked[10] && !map.dangerous[10]);
    map.clear_content_index();
    assert!(map.tile_content.iter().all(|c| c.is_empty()));
}

#[test]
fn monster_step_moves_unless_blocked() {
    let mut map: GameMap<u64> = GameMap::new(4, 4);
    let p = map.monster_step(MapPosition { x: 0, y: 0 }, 5);
    assert_eq!(p, MapPosition { x: 1, y: 1 });
    assert!(map.blocked[5]);
    let q = map.monster_step(MapPosition { x: 0, y: 1 }, 5);
    assert_eq!(q, MapPosition { x: 0, y: 1 });
}

#[test]
fn reveal_shows_exactly_what_is_seen() {
    let mut map: GameMap<u64> = GameMap::new(3, 3);
    map.visible_tiles[8] = true;
    map.dangerous[1] = true;
    let seen = map.reveal_visible(&vec![MapPosition { x: 0, y: 0 }, MapPosition { x: 1, y: 0 }]);
    assert!(seen);
    assert_eq!(map.visible_tiles, vec![true, true, false, false, false, false, false, false, false]);
    assert!(map.revealed_tiles[0] && map.revealed_tiles[1] && !map.revealed_tiles[8]);
    assert!(!map.reveal_visible(&vec![MapPosition { x: 2, y: 2 }]));
    assert!(map.revealed_tiles[0] && map.revealed_tiles[8]);
    assert!(!map.visible_tiles[0] && map.visible_tiles[8]);
    assert!(map.is_visible(MapPosition { x: 2, y: 2 }));
}

#[test]
fn points_off_the_map_are_dropped() {
    let map: GameMap<u64> = GameMap::new(3, 3);
    let kept = map.filter_on_map(&vec![Point::new(-1, 0), Point::new(2, 2), Point::new(3, 0), Point::new(0, 1)]);
    assert_eq!(kept, vec![MapPosition { x: 2, y: 2 }, MapPosition { x: 0, y: 1 }]);
}

#[test]
fn populate_blocked_follows_the_tiles() {
    let mut map: GameMap<u64> = GameMap::new(2, 2);
    map.tiles[1] = TileType::Floor;
    map.blocked[1] = true;
    map.populate_blocked();
    assert_eq!(map.blocked, vec![true, false, true, true]);
}

#[test]
fn rect_center_and_intersection() {
    let a = Rect::with_size(2, 3, 6, 8);
    assert_eq!((a.x1, a.y1, a.x2, a.y2), (2, 3, 8, 11));
    assert_eq!(a.center(), Point::new(5, 7));
    let b = Rect::with_size(8, 11, 2, 2);
    assert!(a.intersect(&b) && b.intersect(&a));
    let c = Rect::with_size(9, 0, 2, 2);
    assert!(!a.intersect(&c));
}

#[test]
fn closest_unknown_prefers_the_nearer_side() {
    let mut map: GameMap<u64> = GameMap::new(7, 1);
    for t in map.tiles.iter_mut() {
        *t = TileType::Floor;
    }
    // Unseen ground at both ends; the start is nearer the right end.
    map.revealed_tiles = vec![false, true, true, true, true, true, false];
    assert_eq!(map.find_closest_unknown(MapPosition { x: 4, y: 0 }), Some(MapPosition { x: 5, y: 0 }));
    assert_eq!(map.find_closest_unknown(MapPosition { x: 2, y: 0 }), Some(MapPosition { x: 1, y: 0 }));
}

#[test]
fn camera_centers_on_the_player() {
    let mut camera = Camera::new(80, 43);
    assert_eq!((camera.width(), camera.height()), (80, 43));
    assert_eq!(camera.offset, MapPosition { x: 0, y: 0 });
    let player = MapPosition { x: 60, y: 30 };
    camera.center(player);
    assert_eq!(camera.offset, MapPosition { x: 20, y: 9 });
    assert_eq!(camera.old_player_pos, player);
    assert!(camera.is_in_view(player));
    assert_eq!(camera.transform_map_pos(player), ScreenPosition { x: 40, y: 21 });
}

#[test]
fn camera_moves_between_map_and_screen() {
    let mut camera = Camera::new(80, 43);
    camera.center(MapPosition { x: 10, y: 5 });
    assert_eq!(camera.offset, MapPosition { x: -30, y: -16 });
    let cell = ScreenPosition { x: 3, y: 4 };
    let pos = camera.transform_screen_pos(cell);
    assert_eq!(pos, MapPosition { x: -27, y: -12 });
    assert_eq!(camera.transform_map_pos(pos), cell);
    assert!(!camera.is_in_view(MapPosition { x: 50, y: 5 }));
    assert!(camera.is_in_view(MapPosition { x: 49, y: 26 }));
    assert!(!camera.is_in_view(MapPosition { x: 49, y: 27 }));
}

#[test]
fn populate_blocked_leaves_the_rest_of_a_longer_record() {
    let mut map: GameMap<u64> = GameMap::new(2, 2);
    map.tiles[1] = TileType::Floor;
    map.blocked.push(false);
    map.blocked.push(true);
    map.populate_blocked();
    assert_eq!(map.blocked, vec![true, false, true, true, false, true]);
}
