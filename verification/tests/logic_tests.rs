use rouge::combat::{announce_death, melee, melee_damage, receive_health, suffer_damage, CombatStats};
use rouge::energy::regain_energy;
use rouge::gamelog::{line_layout, GameLog, LogEntry, WHITE};
use rouge::gui::{
    ask_bool_answer, hp_bar_color, index_to_letter, key_to_dir, main_menu_input, move_cursor,
    select_item, tooltip_layout, BarColor, ItemMenuResult, Key, MainMenuResult, MainMenuState,
    TargetingInfo, TargetingInput,
};
use rouge::inventory::{announce_drop, backpack_slot, pickup, targets_at, use_item, ItemEffect, Pickup};
use rouge::langgen::output_queue::OutputQueue;
use rouge::langgen::{EntityAdapter, EntityFacts, Fragment, FragmentEntry, Gender, QueueAdapter, ShownLog};
use rouge::map::{GameMap, TileType};
use rouge::monster_ai::{chebyshev_distance, monster_action, monster_turn, ready_order, sees, MonsterAction};
use rouge::player::{
    auto_walk_dir_step, click_target, path_step, player_command, step_turn, try_move, InventoryType,
    MoveOutcome, PlayerCommand, PlayerTarget,
};
use rouge::positions::{dir_to_dx_dy, Direction, MapPosition, ScreenPosition};
use rouge::run_state::{next_run_state, GameEvent, Request, RunState};
use rouge::scenes::{main_menu_action, text_screen_done, MenuAction, SceneManager, SceneResult};
use rouge::spawner::{
    item_kind, item_name, item_props, monster_kind, monster_look, monster_stats, player_stats,
    spawn_position, try_add_spawn_point, ItemKind, MonsterKind,
};
use rouge::rect::Rect;
use std::collections::VecDeque;

type Queue = OutputQueue<i32, VecDeque<FragmentEntry<i32>>>;

/// Names entity 0 "player" (who is "you"), 1 "orc", 2 "apple", 3
/// "potion"; everyone sees everything.
struct Names {
    out: String,
}

impl EntityAdapter<i32> for Names {
    // The proofs' models of the adapter; never run.
    fn facts(&self) -> EntityFacts<i32> {
        panic!("a model for the proofs")
    }
    fn shown(&self) -> ShownLog {
        panic!("a model for the proofs")
    }
    fn can_see(&self, _who: i32, _obj: i32) -> bool {
        true
    }
    fn is_me(&self, obj: i32) -> bool {
        obj == 0
    }
    fn gender(&self, _obj: i32) -> Gender {
        Gender::Neuter
    }
    fn is_thing(&self, obj: i32) -> bool {
        obj >= 2
    }
    fn has_short_proper(&self, _obj: i32) -> bool {
        false
    }
    fn append_short_name(&self, obj: i32, s: &mut String) {
        s.push_str(["player", "orc", "apple", "potion"][obj as usize]);
    }
    fn has_long_proper(&self, _obj: i32) -> bool {
        false
    }
    fn append_long_name(&self, obj: i32, s: &mut String) {
        self.append_short_name(obj, s);
    }
    fn append_short_plural_name(&self, obj: i32, s: &mut String) {
        self.append_short_name(obj, s);
        s.push('s');
    }
    fn append_long_plural_name(&self, obj: i32, s: &mut String) {
        self.append_short_plural_name(obj, s);
    }
    fn write_text(&mut self, text: &str) {
        self.out.push_str(text);
    }
    fn set_color(&mut self, color: (u8, u8, u8)) {
        self.out.push_str(&format!("{:?}", color));
    }
    fn done(&mut self) {
        self.out.push('\n');
    }
}

fn render(q: &mut Queue) -> String {
    let mut names = Names { out: String::new() };
    q.process_queue(&mut names);
    names.out
}

#[test]
fn melee_damage_is_power_less_defense() {
    assert_eq!(melee_damage(5, 2), 3);
    assert_eq!(melee_damage(2, 5), 0);
    assert_eq!(melee_damage(4, 4), 0);
}

#[test]
fn melee_hits_and_tells() {
    let mut q = Queue::new(VecDeque::new(), 0);
    let target = CombatStats { max_hp: 16, hp: 16, defense: 1, power: 4 };
    let mut energy = 0;
    assert_eq!(melee(&mut q, 0, 1, 5, Some(target), &mut energy), Some(4));
    assert_eq!(energy, -120);
    assert_eq!(render(&mut q), "You hit the orc, for 4 hp.\n");
}

#[test]
fn melee_without_damage_or_target() {
    let mut q = Queue::new(VecDeque::new(), 0);
    let strong = CombatStats { max_hp: 16, hp: 16, defense: 9, power: 4 };
    let mut energy = 7;
    assert_eq!(melee(&mut q, 1, 0, 4, Some(strong), &mut energy), None);
    assert_eq!(energy, -120);
    energy = 3;
    assert_eq!(melee(&mut q, 1, 0, 4, None, &mut energy), None);
    assert_eq!(energy, -120);
    let dead = CombatStats { hp: 0, ..strong };
    energy = 0;
    assert_eq!(melee(&mut q, 1, 0, 40, Some(dead), &mut energy), None);
    assert_eq!(energy, -120);
    assert_eq!(render(&mut q), "The orc is unable to hurt you.\nThe orc wants to attak a ghost?\n");
}

#[test]
fn damage_and_healing() {
    let mut s = CombatStats { max_hp: 30, hp: 30, defense: 2, power: 5 };
    suffer_damage(&mut s, 12);
    assert_eq!(s.hp, 18);
    receive_health(&mut s, 8);
    assert_eq!((s.hp, s.max_hp), (26, 30));
    receive_health(&mut s, 8);
    assert_eq!((s.hp, s.max_hp), (30, 30));
    receive_health(&mut s, 8);
    assert_eq!((s.hp, s.max_hp), (32, 32));
    receive_health(&mut s, 20);
    assert_eq!((s.hp, s.max_hp), (35, 35));
}

#[test]
fn deaths_are_told() {
    let mut q = Queue::new(VecDeque::new(), 0);
    announce_death(&mut q, 1, false, 5);
    announce_death(&mut q, 1, false, 0);
    announce_death(&mut q, 0, true, -3);
    assert_eq!(render(&mut q), "The orc dies.\nYou are dead.\n");
}

#[test]
fn regaining_energy_readies_the_closest() {
    let mut e = vec![-120, -50, 10, -90];
    let gain = regain_energy(&mut e, false);
    assert_eq!(gain, 50);
    assert_eq!(e, vec![-70, 0, 10, -40]);
    let mut f = vec![3, 0];
    assert_eq!(regain_energy(&mut f, false), 0);
    assert_eq!(f, vec![3, 0]);
    let mut g = vec![-10];
    assert_eq!(regain_energy(&mut g, true), 0);
    assert_eq!(g, vec![-10]);
}

#[test]
fn monsters_act_highest_energy_first() {
    assert_eq!(ready_order(&vec![5, -1, 20, 5, 0]), vec![2, 0, 3, 4]);
    assert!(ready_order(&vec![-3, -4]).is_empty());
}

#[test]
fn monsters_attack_next_to_the_player() {
    let p = MapPosition { x: 5, y: 5 };
    assert_eq!(chebyshev_distance(p, MapPosition { x: 6, y: 4 }), 1);
    assert_eq!(chebyshev_distance(p, MapPosition { x: 9, y: 3 }), 4);
    assert_eq!(monster_action(MapPosition { x: 6, y: 6 }, p, false), MonsterAction::Attack);
    assert_eq!(monster_action(MapPosition { x: 7, y: 6 }, p, true), MonsterAction::Chase);
    assert_eq!(monster_action(MapPosition { x: 7, y: 6 }, p, false), MonsterAction::Wait);
    assert!(sees(&vec![MapPosition { x: 1, y: 1 }, p], p));
    assert!(!sees(&vec![MapPosition { x: 1, y: 1 }], p));
}

#[test]
fn backpack_slots() {
    assert_eq!(backpack_slot(&vec![0, 1, 3], None), Some(2));
    assert_eq!(backpack_slot(&vec![0, 1, 3], Some(7)), Some(7));
    assert_eq!(backpack_slot(&vec![0, 1, 3], Some(1)), Some(2));
    assert_eq!(backpack_slot(&vec![0, 1, 3], Some(60)), Some(2));
    let full: Vec<u8> = (0..52).collect();
    assert_eq!(backpack_slot(&full, None), None);
}

#[test]
fn pickups_are_told() {
    let mut q = Queue::new(VecDeque::new(), 0);
    assert_eq!(pickup(&mut q, 0, 2, true, &vec![0], None), Pickup::Taken(Some(1)));
    assert_eq!(pickup(&mut q, 0, 2, true, &vec![0], Some(4)), Pickup::Taken(None));
    assert_eq!(pickup(&mut q, 1, 3, false, &vec![], None), Pickup::Taken(None));
    let full: Vec<u8> = (0..52).collect();
    assert_eq!(pickup(&mut q, 0, 2, true, &full, None), Pickup::Full);
    assert_eq!(
        render(&mut q),
        "(255, 255, 0)You pick up an apple  (b).\n(255, 255, 0)You pick up an apple  (e).\nThe orc picks up a potion.\nYour backpack is full.\n"
    );
}

#[test]
fn drops_are_told_for_the_player_only() {
    let mut q = Queue::new(VecDeque::new(), 0);
    announce_drop(&mut q, 1, 2, false);
    announce_drop(&mut q, 0, 2, true);
    assert_eq!(render(&mut q), "You drop the apple.\n");
}

#[test]
fn using_items() {
    let mut q = Queue::new(VecDeque::new(), 0);
    let healed = use_item(&mut q, 0, 3, &vec![0, 1], &vec![true, false], ItemEffect::Heal(8));
    assert_eq!(healed, vec![(0, 8), (1, 8)]);
    let hurt = use_item(&mut q, 0, 2, &vec![1], &vec![false], ItemEffect::Damage(20));
    assert_eq!(hurt, vec![(1, 20)]);
    let none = use_item(&mut q, 0, 2, &vec![1], &vec![false], ItemEffect::Nothing);
    assert!(none.is_empty());
    assert_eq!(
        render(&mut q),
        "You consume the potion.\nYou feel better.\nThe orc feels better.\nYou consume the apple.\nThe orc loses 20 hp.\nYou consume the apple.\n"
    );
}

#[test]
fn targets_are_what_stands_on_the_tiles() {
    let mut map: GameMap<i32> = GameMap::new(3, 3);
    map.index_blocker(MapPosition { x: 1, y: 1 }, 5, true);
    map.index_blocker(MapPosition { x: 1, y: 1 }, 6, false);
    map.index_blocker(MapPosition { x: 0, y: 0 }, 7, true);
    let t = targets_at(&map, &vec![MapPosition { x: 1, y: 1 }, MapPosition { x: 2, y: 2 }, MapPosition { x: 0, y: 0 }]);
    assert_eq!(t, vec![5, 6, 7]);
}

#[test]
fn keys_and_letters() {
    assert_eq!(key_to_dir(Key::H), Some(Direction::West));
    assert_eq!(key_to_dir(Key::Down), Some(Direction::South));
    assert_eq!(key_to_dir(Key::U), Some(Direction::NorthEast));
    assert_eq!(key_to_dir(Key::A), None);
    assert_eq!(index_to_letter(0), 'a');
    assert_eq!(index_to_letter(20), 'u');
    assert_eq!(index_to_letter(21), 'b');
    assert_eq!(index_to_letter(25), 'z');
    assert_eq!(index_to_letter(26), 'A');
    assert_eq!(index_to_letter(47), 'B');
    assert_eq!(index_to_letter(51), 'Z');
    assert_eq!(Key::C.letter_option(), 2);
    assert_eq!(Key::Escape.letter_option(), -1);
}

#[test]
fn main_menu_moves_and_chooses() {
    assert_eq!(main_menu_input(MainMenuState::New, Some(Key::Down)), MainMenuResult::NoSelection(MainMenuState::Load));
    assert_eq!(main_menu_input(MainMenuState::Quit, Some(Key::J)), MainMenuResult::NoSelection(MainMenuState::New));
    assert_eq!(main_menu_input(MainMenuState::New, Some(Key::Up)), MainMenuResult::NoSelection(MainMenuState::Quit));
    assert_eq!(main_menu_input(MainMenuState::Load, Some(Key::Return)), MainMenuResult::Selected(MainMenuState::Load));
    assert_eq!(main_menu_input(MainMenuState::Load, None), MainMenuResult::NoSelection(MainMenuState::Load));
    let mut s = MainMenuState::New;
    for _ in 0..3 {
        if let MainMenuResult::NoSelection(n) = main_menu_input(s, Some(Key::Down)) {
            s = n;
        }
    }
    assert_eq!(s, MainMenuState::New);
    assert_eq!(main_menu_action(MainMenuResult::Selected(MainMenuState::Quit)), MenuAction::Leave);
    assert_eq!(main_menu_action(MainMenuResult::Selected(MainMenuState::New)), MenuAction::StartNew);
    assert_eq!(main_menu_action(MainMenuResult::NoSelection(MainMenuState::Load)), MenuAction::Stay(MainMenuState::Load));
}

#[test]
fn yes_or_no() {
    assert_eq!(ask_bool_answer(Some(Key::Y)), (ItemMenuResult::Selected, true));
    assert_eq!(ask_bool_answer(Some(Key::N)), (ItemMenuResult::Selected, false));
    assert_eq!(ask_bool_answer(Some(Key::Escape)), (ItemMenuResult::Cancel, false));
    assert_eq!(ask_bool_answer(Some(Key::Q)), (ItemMenuResult::NoResponse, false));
    assert!(text_screen_done(Some(Key::Return)));
    assert!(!text_screen_done(None));
}

#[test]
fn inventory_selection() {
    let items = vec![(0u8, 10), (2u8, 12), (28u8, 40)];
    assert_eq!(select_item(&items, Some(Key::C), false), (ItemMenuResult::Selected, Some(12)));
    assert_eq!(select_item(&items, Some(Key::B), false), (ItemMenuResult::NoResponse, None));
    // With shift a letter chooses 27 slots on: b with shift is slot 28.
    assert_eq!(select_item(&items, Some(Key::B), true), (ItemMenuResult::Selected, Some(40)));
    assert_eq!(select_item(&items, Some(Key::Escape), false), (ItemMenuResult::Cancel, None));
    assert_eq!(select_item(&items, None, false), (ItemMenuResult::NoResponse, None));
    assert_eq!(select_item(&items, Some(Key::Comma), false), (ItemMenuResult::NoResponse, None));
    let empty: Vec<(u8, i32)> = vec![];
    assert_eq!(select_item(&empty, Some(Key::A), false), (ItemMenuResult::Cancel, None));
}

#[test]
fn health_bar_colors() {
    assert_eq!(hp_bar_color(9, 30), BarColor::Red);
    assert_eq!(hp_bar_color(10, 30), BarColor::Yellow);
    assert_eq!(hp_bar_color(21, 30), BarColor::Yellow);
    assert_eq!(hp_bar_color(22, 30), BarColor::Green);
}

#[test]
fn cursor_moves_within_screen() {
    assert_eq!(move_cursor((5, 5), Key::L, 80, 50), (6, 5));
    assert_eq!(move_cursor((0, 5), Key::H, 80, 50), (0, 5));
    assert_eq!(move_cursor((5, 42), Key::J, 80, 50), (5, 42));
    assert_eq!(move_cursor((5, 5), Key::Q, 80, 50), (5, 5));
}

#[test]
fn targeting_chooses_available_cells() {
    let start = ScreenPosition { x: 10, y: 10 };
    let mouse = ScreenPosition { x: 0, y: 0 };
    let mut info = TargetingInfo::new(6, start, mouse);
    let cells = vec![ScreenPosition { x: 11, y: 10 }];
    let r = info.step(TargetingInput { key: Some(Key::L), left_click: false, mouse }, 80, 50, &cells);
    assert_eq!(r, (ItemMenuResult::NoResponse, None));
    assert_eq!(info.current_pos, ScreenPosition { x: 11, y: 10 });
    let r = info.step(TargetingInput { key: Some(Key::Return), left_click: false, mouse }, 80, 50, &cells);
    assert_eq!(r, (ItemMenuResult::Selected, Some(ScreenPosition { x: 11, y: 10 })));
    let moved = ScreenPosition { x: 30, y: 3 };
    let r = info.step(TargetingInput { key: None, left_click: true, mouse: moved }, 80, 50, &cells);
    assert_eq!(r, (ItemMenuResult::Cancel, None));
    assert_eq!(info.current_pos, moved);
    let r = info.step(TargetingInput { key: Some(Key::Escape), left_click: true, mouse: moved }, 80, 50, &cells);
    assert_eq!(r, (ItemMenuResult::Cancel, None));
}

#[test]
fn tooltips_sit_beside_the_mouse() {
    let t = tooltip_layout(&vec![3, 7], 50);
    assert_eq!((t.width, t.text_x, t.arrow_x, t.left_of_mouse), (10, 40, 48, true));
    let u = tooltip_layout(&vec![4], 10);
    assert_eq!((u.width, u.text_x, u.arrow_x, u.left_of_mouse), (7, 14, 11, false));
}

#[test]
fn game_log_lines() {
    let mut log = GameLog::new();
    log.set_color((0, 255, 0));
    log.write_text("Screenshot taken.".to_string());
    log.end_of_line();
    log.write_text("Hi".to_string());
    log.write_text("there".to_string());
    log.end_of_line();
    assert_eq!(log.entries.len(), 2);
    assert!(log.current_line.is_empty());
    assert_eq!(log.first_shown(1), 1);
    assert_eq!(log.first_shown(5), 0);
    let layout = line_layout(&log.entries[0]);
    assert_eq!(layout, vec![(1, 1, (0, 255, 0))]);
    let layout = line_layout(&log.entries[1]);
    assert_eq!(layout, vec![(0, 1, WHITE), (1, 3, WHITE)]);
    match &log.entries[1][1] {
        LogEntry::Text(t) => assert_eq!(t, "there"),
        LogEntry::Color(_) => panic!("expected text"),
    }
}

#[test]
fn scene_stack() {
    let mut m: SceneManager<&str> = SceneManager::new();
    assert!(m.is_empty());
    m.push("menu");
    m.apply(SceneResult::Push("help"));
    assert_eq!(m.scenes, vec!["menu", "help"]);
    m.apply(SceneResult::Pop);
    assert_eq!(m.scenes, vec!["menu"]);
    m.apply(SceneResult::Replace("game"));
    assert_eq!(m.scenes, vec!["game"]);
    m.apply(SceneResult::Continue);
    assert_eq!(m.scenes, vec!["game"]);
    m.apply(SceneResult::Pop);
    assert!(m.is_empty());
}

#[test]
fn player_commands() {
    assert_eq!(player_command(Some(Key::K), false, false), PlayerCommand::Move(0, -1));
    assert_eq!(player_command(Some(Key::N), false, false), PlayerCommand::Move(1, 1));
    assert_eq!(player_command(Some(Key::Space), false, false), PlayerCommand::Wait);
    assert_eq!(player_command(Some(Key::Comma), false, false), PlayerCommand::PickUp);
    assert_eq!(player_command(Some(Key::D), false, false), PlayerCommand::ShowInventory(InventoryType::Drop));
    assert_eq!(player_command(Some(Key::Escape), false, false), PlayerCommand::Quit);
    assert_eq!(player_command(Some(Key::Q), true, false), PlayerCommand::SaveGame);
    assert_eq!(player_command(Some(Key::L), true, false), PlayerCommand::StartAutoWalk(Some(Direction::East)));
    assert_eq!(player_command(None, false, false), PlayerCommand::AutoWalk);
    assert_eq!(player_command(Some(Key::Q), false, true), PlayerCommand::ClickWalk);
    assert_eq!(player_command(Some(Key::Z), false, false), PlayerCommand::Nothing);
}

#[test]
fn player_moves_attacks_or_is_blocked() {
    let mut map: GameMap<i32> = GameMap::new(4, 4);
    for t in map.tiles.iter_mut() {
        *t = TileType::Floor;
    }
    assert_eq!(try_move(&map, MapPosition { x: 1, y: 1 }, 1, 0, &vec![]), MoveOutcome::Moved(MapPosition { x: 2, y: 1 }));
    map.index_blocker(MapPosition { x: 2, y: 1 }, 9, true);
    map.index_blocker(MapPosition { x: 2, y: 1 }, 8, false);
    assert_eq!(try_move(&map, MapPosition { x: 1, y: 1 }, 1, 0, &vec![false, true]), MoveOutcome::Attack(8));
    assert_eq!(try_move(&map, MapPosition { x: 1, y: 1 }, 1, 0, &vec![false, false]), MoveOutcome::Blocked);
    assert_eq!(auto_walk_dir_step(&map, MapPosition { x: 1, y: 1 }, Direction::East), None);
    assert_eq!(auto_walk_dir_step(&map, MapPosition { x: 1, y: 1 }, Direction::South), Some((0, 1)));
    assert_eq!(path_step(&map, MapPosition { x: 1, y: 1 }, 10), (1, 1));
    assert_eq!(click_target(&map, MapPosition { x: 3, y: 3 }, true), PlayerTarget::NoTarget);
    map.revealed_tiles[15] = true;
    assert_eq!(click_target(&map, MapPosition { x: 3, y: 3 }, true), PlayerTarget::Position(MapPosition { x: 3, y: 3 }));
    assert_eq!(click_target(&map, MapPosition { x: 3, y: 3 }, false), PlayerTarget::NoTarget);
}

#[test]
fn spawning() {
    assert_eq!(monster_kind(1), MonsterKind::Lamotte);
    assert_eq!(monster_kind(2), MonsterKind::Janouch);
    assert_eq!(item_kind(3), ItemKind::FireballScroll);
    assert_eq!(item_kind(4), ItemKind::Ball);
    assert_eq!(item_props(ItemKind::HealthPotion).heal_amount, Some(8));
    assert_eq!(item_props(ItemKind::FireballScroll).radius, Some(3));
    assert_eq!(player_stats().max_hp, 30);
    assert_eq!(monster_stats().power, 4);
    let room = Rect::with_size(10, 5, 6, 6);
    let mut points = Vec::new();
    assert!(try_add_spawn_point(&mut points, room, 1, 2));
    assert!(!try_add_spawn_point(&mut points, room, 1, 2));
    assert_eq!(points, vec![7 * 120 + 11]);
    assert_eq!(spawn_position(points[0]), (11, 7));
}

#[test]
fn turn_cycle() {
    let s: RunState<i32> = RunState::Tick;
    assert_eq!(next_run_state(s, GameEvent::Ran(Some(-5))), (RunState::Tick, None, false));
    assert_eq!(next_run_state(s, GameEvent::Ran(Some(0))), (RunState::AwaitingInput, None, false));
    assert_eq!(next_run_state(s, GameEvent::Ran(None)), (RunState::ReallyQuit, None, false));
    let quit: RunState<i32> = RunState::ReallyQuit;
    assert_eq!(next_run_state(quit, GameEvent::QuitAnswer(ItemMenuResult::Selected, true)).2, true);
    assert_eq!(next_run_state(quit, GameEvent::QuitAnswer(ItemMenuResult::Cancel, true)).0, RunState::AwaitingInput);
    let inv: RunState<i32> = RunState::ShowInventory(InventoryType::Drop);
    let p = ScreenPosition { x: 1, y: 1 };
    assert_eq!(
        next_run_state(inv, GameEvent::InventoryAnswer(ItemMenuResult::Selected, Some(4), None, p, p)),
        (RunState::Tick, Some(Request::Drop(4)), false)
    );
    let apply: RunState<i32> = RunState::ShowInventory(InventoryType::Apply);
    let (next, req, _) = next_run_state(apply, GameEvent::InventoryAnswer(ItemMenuResult::Selected, Some(4), Some(6), p, p));
    assert_eq!(req, None);
    assert_eq!(next, RunState::ShowTargeting(TargetingInfo::new(6, p, p), 4));
    let target = MapPosition { x: 3, y: 4 };
    assert_eq!(
        next_run_state(next, GameEvent::TargetAnswer(TargetingInfo::new(6, p, p), ItemMenuResult::Selected, Some(target))),
        (RunState::Tick, Some(Request::Use(4, Some(target))), false)
    );
}

#[test]
fn processing_in_two_parts_shows_what_processing_once_shows() {
    let mut once = Queue::new(VecDeque::new(), 0);
    once.the(1).v(1, "hit").the(0);
    once.s("The apple").supress_dot();
    once.a(2).v(2, "roll").s("away");
    let all = render(&mut once);

    let mut twice = Queue::new(VecDeque::new(), 0);
    let mut names = Names { out: String::new() };
    twice.the(1).v(1, "hit").the(0);
    twice.s("The apple").supress_dot();
    twice.process_queue(&mut names);
    twice.a(2).v(2, "roll").s("away");
    twice.process_queue(&mut names);

    assert_eq!(names.out, all);
    assert_eq!(all, "The orc hits you.\nThe apple\nAn apple rolls away.\n");
}

#[test]
fn monsters_and_items_have_names() {
    assert_eq!(monster_look(MonsterKind::Lamotte), ("Lamotte", 'l'));
    assert_eq!(monster_look(MonsterKind::Janouch), ("Janouch", 'j'));
    assert_eq!(item_name(ItemKind::HealthPotion), "Health Potion");
    assert_eq!(item_name(ItemKind::MagicMissileScroll), "Magic Missile Scroll");
    assert_eq!(item_name(ItemKind::FireballScroll), "Fireball Scroll");
    assert_eq!(item_name(ItemKind::Ball), "Ball");
}

#[test]
fn directions_and_steps_agree() {
    for dir in Direction::iter() {
        let (dx, dy) = dir_to_dx_dy(dir);
        assert_eq!(Direction::from_delta((dx, dy)), dir);
        let pos = MapPosition { x: 5, y: 7 };
        assert_eq!(pos.add_dir(dir), MapPosition { x: 5 + dx, y: 7 + dy });
        assert_eq!(pos.add_delta((dx, dy)), pos.add_dir(dir));
    }
    assert_eq!(dir_to_dx_dy(Direction::NorthWest), (-1, -1));
    assert_eq!(dir_to_dx_dy(Direction::South), (0, 1));
    assert_eq!(Direction::iter().len(), 8);
}

#[test]
fn player_steps_further_than_one_tile() {
    let mut map: GameMap<i32> = GameMap::new(6, 4);
    for t in map.tiles.iter_mut() {
        *t = TileType::Floor;
    }
    assert_eq!(try_move(&map, MapPosition { x: 1, y: 1 }, 3, 2, &vec![]), MoveOutcome::Moved(MapPosition { x: 4, y: 3 }));
    map.blocked[10] = true;
    assert_eq!(try_move(&map, MapPosition { x: 1, y: 1 }, 3, 0, &vec![]), MoveOutcome::Blocked);
    // Off the map to the left, the index wraps to the row above's last
    // tile; the position is kept on the map.
    assert_eq!(try_move(&map, MapPosition { x: 0, y: 2 }, -1, 0, &vec![]), MoveOutcome::Moved(MapPosition { x: 0, y: 2 }));
}

#[test]
fn slot_letters_past_the_backpack_repeat_in_upper_case() {
    assert_eq!(index_to_letter(52), 'A');
    assert_eq!(index_to_letter(78), 'A');
    assert_eq!(index_to_letter(255), 'B');
}

#[test]
fn health_bar_of_any_maximum() {
    assert_eq!(hp_bar_color(-5, -6), BarColor::Red);
    assert_eq!(hp_bar_color(0, -6), BarColor::Green);
    assert_eq!(hp_bar_color(-2, -6), BarColor::Green);
}

#[test]
fn tooltip_far_right() {
    let t = tooltip_layout(&vec![5], 2_000_000);
    assert_eq!((t.width, t.text_x, t.arrow_x, t.left_of_mouse), (8, 1_999_992, 1_999_998, true));
}

#[test]
fn picked_up_slots_stay_distinct() {
    let mut used: Vec<u8> = vec![0, 2];
    for _ in 0..50 {
        let slot = backpack_slot(&used, Some(2)).unwrap();
        assert!(!used.contains(&slot));
        used.push(slot);
    }
    assert_eq!(backpack_slot(&used, None), None);
    let mut sorted = used.clone();
    sorted.sort();
    sorted.dedup();
    assert_eq!(sorted.len(), 52);
}

#[test]
fn lines_do_not_depend_on_the_lines_before() {
    let mut together = Queue::new(VecDeque::new(), 0);
    together.the(1).s("waits").supress_dot();
    together.v(1, "look").s("around");
    let both = render(&mut together);

    let mut first = Queue::new(VecDeque::new(), 0);
    first.the(1).s("waits").supress_dot();
    let mut second = Queue::new(VecDeque::new(), 0);
    second.v(1, "look").s("around");
    assert_eq!(both, render(&mut first) + &render(&mut second));
    assert_eq!(both, "The orc waits\nLooks around.\n");
}

#[test]
fn queue_is_first_in_first_out() {
    let mut q: VecDeque<FragmentEntry<i32>> = VecDeque::new();
    for k in 0..5 {
        q.push(FragmentEntry(Fragment::The(k)));
    }
    for k in 0..5 {
        match q.pop() {
            Some(FragmentEntry(Fragment::The(e))) => assert_eq!(e, k),
            _ => panic!("the queue lost an entry"),
        }
    }
    assert!(q.pop().is_none());
}

#[test]
fn monsters_never_step_onto_each_other() {
    let mut map: GameMap<i32> = GameMap::new(4, 4);
    for t in map.tiles.iter_mut() {
        *t = TileType::Floor;
    }
    map.index_blocker(MapPosition { x: 1, y: 1 }, 1, true);
    map.index_blocker(MapPosition { x: 2, y: 1 }, 2, true);
    assert_eq!(map.monster_step(MapPosition { x: 1, y: 1 }, 6), MapPosition { x: 1, y: 1 });
    assert_eq!(map.monster_step(MapPosition { x: 1, y: 1 }, 9), MapPosition { x: 1, y: 2 });
    assert!(!map.blocked[5] && map.blocked[6] && map.blocked[9]);
    assert!(map.dangerous[9] && !map.dangerous[5]);
}

#[test]
fn a_step_decides_the_turn_and_its_cost() {
    let attack: MoveOutcome<i32> = MoveOutcome::Attack(3);
    assert_eq!(step_turn(&attack), (RunState::EnergylessTick, None));
    let blocked: MoveOutcome<i32> = MoveOutcome::Blocked;
    assert_eq!(step_turn(&blocked), (RunState::AwaitingInput, None));
    let moved: MoveOutcome<i32> = MoveOutcome::Moved(MapPosition { x: 2, y: 1 });
    assert_eq!(step_turn(&moved), (RunState::EnergylessTick, Some(-100)));
}

#[test]
fn monsters_act_only_in_a_tick() {
    let energies = vec![-10, 5, 0, 9];
    assert_eq!(monster_turn::<i32>(RunState::Tick, &energies), vec![3, 1, 2]);
    assert_eq!(monster_turn::<i32>(RunState::EnergylessTick, &energies), vec![3, 1, 2]);
    assert_eq!(monster_turn::<i32>(RunState::AwaitingInput, &energies), Vec::<usize>::new());
    assert_eq!(monster_turn::<i32>(RunState::PreRun, &energies), Vec::<usize>::new());
}
