use tui_games::poketui::api::pokemon_info_from;
use tui_games::clock::{epoch_seconds, nanos_seed};
use tui_games::dndtui::sprite::{SpriteData, SpriteFrame};
use tui_games::poketui::action::{Action, Effect};
use tui_games::poketui::battle::{
    boss_level_of, damage_with_roll, exp_reward, format_name, guard_damage, pick_drop, raise_level, wild_level_for,
};
use tui_games::poketui::combat::sort_by_speed;
use tui_games::poketui::guard::action_allowed;
use tui_games::poketui::loading::loaded_fits_now;
use tui_games::poketui::map::{MapState, Tile};
use tui_games::poketui::overworld::start_battle;
use tui_games::poketui::reducer::{
    add_item_to_inventory, available_items, message_next, pokeball_count, push_message, reducer, take_item,
};
use tui_games::poketui::scenario::ItemDrop;
use tui_games::poketui::state::{
    calc_hp, calc_stat, clock_seed, exp_for_level, stat_fits_now, AppState, BattleKind, BattleStage, Direction, GameMode, ItemKind,
    ItemStack, PokemonInfo, SpriteTarget, TurnActor,
};

fn info(name: &str, hp: u16) -> PokemonInfo {
    PokemonInfo {
        name: name.to_string(),
        base_experience: 64,
        hp,
        attack: 49,
        defense: 49,
        sp_attack: 65,
        sp_defense: 65,
        speed: 45,
        sprite_front_default: Some(format!("https://img/{name}.png")),
        sprite_back_default: None,
        sprite_front_animated: None,
        sprite_back_animated: None,
    }
}

fn fresh() -> AppState {
    let mut s = AppState::new();
    s.rng_seed = 7;
    s
}

#[test]
fn map_rows_are_trimmed_and_padded_with_grass() {
    let m = MapState::from_str("T", "\n  #r\n\n  #rw#  \r\n  sg\n");
    assert_eq!(m.width, 4);
    assert_eq!(m.height, 3);
    assert_eq!(m.tiles.len(), 12);
    assert_eq!(m.tile(0, 0), Tile::Wall);
    assert_eq!(m.tile(1, 0), Tile::Path);
    assert_eq!(m.tile(2, 0), Tile::Grass);
    assert_eq!(m.tile(2, 1), Tile::Water);
    assert_eq!(m.tile(0, 2), Tile::Sand);
    assert_eq!(m.tile(9, 9), Tile::Wall);
    assert!(!m.is_walkable(2, 1));
    assert!(m.is_grass(3, 2));
    assert_eq!(m.start_pos(), (1, 0));
}

#[test]
fn map_without_path_starts_left_of_middle() {
    let m = MapState::from_str("T", "ggg\nggg\nggg\nggg");
    assert_eq!(m.start_pos(), (2, 2));
}

#[test]
fn default_route_starts_on_the_road() {
    let m = MapState::new();
    assert_eq!(m.name, "LAKESIDE ROUTE");
    assert_eq!(m.width, 50);
    assert_eq!(m.height, 24);
    assert_eq!(m.start_pos(), (1, 12));
    let s = AppState::new();
    assert_eq!((s.player.x, s.player.y), (1, 12));
    assert_eq!(s.mode, GameMode::MainMenu);
}

#[test]
fn stat_formulas() {
    assert_eq!(calc_hp(35, 5), 20);
    assert_eq!(calc_hp(35, 0), calc_hp(35, 1));
    assert_eq!(calc_stat(55, 5), 12);
    assert_eq!(exp_for_level(0), 1);
    assert_eq!(exp_for_level(5), 125);
    assert_eq!(exp_for_level(100), 1_000_000);
}

#[test]
fn display_names() {
    assert_eq!(format_name("mr-mime"), "Mr Mime");
    assert_eq!(format_name("--ho--oh-"), "Ho Oh");
    assert_eq!(format_name("pikachu"), "Pikachu");
    assert_eq!(format_name(""), "");
}

#[test]
fn damage_and_guard() {
    assert_eq!(damage_with_roll(5, 12, 10, 0), 4);
    assert_eq!(damage_with_roll(5, 12, 10, 15), 5);
    assert_eq!(damage_with_roll(0, 0, 0, 0), 2);
    assert_eq!(guard_damage(100, 50), 50);
    assert_eq!(guard_damage(10, 255), 0);
    assert_eq!(guard_damage(10, 0), 10);
}

#[test]
fn levels_and_experience() {
    assert_eq!(wild_level_for(1, 0), 2);
    assert_eq!(wild_level_for(10, 4), 12);
    assert_eq!(wild_level_for(100, 4), 100);
    assert_eq!(boss_level_of(3), 8);
    assert_eq!(boss_level_of(99), 100);
    assert_eq!(raise_level(5, 216), 6);
    assert_eq!(raise_level(5, 1000), 10);
    assert_eq!(raise_level(100, u32::MAX), 100);
    assert_eq!(exp_reward(60, 5), 42);
    assert_eq!(exp_reward(1, 1), 1);
}

#[test]
fn drops_are_picked_by_weight() {
    let pool = vec![
        ItemDrop { kind: ItemKind::Potion, weight: 2, qty: 1 },
        ItemDrop { kind: ItemKind::PokeBall, weight: 3, qty: 2 },
    ];
    assert_eq!(pick_drop(&pool, 0).kind, ItemKind::Potion);
    assert_eq!(pick_drop(&pool, 1).kind, ItemKind::Potion);
    assert_eq!(pick_drop(&pool, 2).kind, ItemKind::PokeBall);
    assert_eq!(pick_drop(&pool, 4).kind, ItemKind::PokeBall);
}

#[test]
fn bag_take_and_add() {
    let mut inv = vec![
        ItemStack { kind: ItemKind::Potion, qty: 1 },
        ItemStack { kind: ItemKind::PokeBall, qty: 0 },
    ];
    assert_eq!(available_items(&inv), vec![(ItemKind::Potion, 1)]);
    assert!(take_item(&mut inv, ItemKind::Potion));
    assert!(!take_item(&mut inv, ItemKind::Potion));
    assert!(!take_item(&mut inv, ItemKind::SuperPotion));
    assert_eq!(pokeball_count(&inv), 0);
    add_item_to_inventory(&mut inv, ItemKind::PokeBall, 3);
    add_item_to_inventory(&mut inv, ItemKind::SuperPotion, 2);
    assert_eq!(pokeball_count(&inv), 3);
    assert_eq!(inv[2], ItemStack { kind: ItemKind::SuperPotion, qty: 2 });
    add_item_to_inventory(&mut inv, ItemKind::PokeBall, u16::MAX);
    assert_eq!(pokeball_count(&inv), u16::MAX);
}

#[test]
fn messages_wait_in_line() {
    let mut s = fresh();
    push_message(&mut s, String::new());
    assert_eq!(s.message, None);
    push_message(&mut s, "one".to_string());
    push_message(&mut s, "two".to_string());
    assert_eq!(s.message.as_deref(), Some("one"));
    assert!(message_next(&mut s).changed);
    assert_eq!(s.message.as_deref(), Some("two"));
    message_next(&mut s);
    assert_eq!(s.message, None);
    assert!(!message_next(&mut s).changed);
}

#[test]
fn clock_seeds() {
    assert_eq!(clock_seed(Some((1, 2))), (1u64 << 32) ^ 2);
    assert_eq!(clock_seed(None), 0);
    assert_eq!(nanos_seed(Some((2, 5))), 2_000_000_005);
    assert_eq!(nanos_seed(None), 1);
    assert_eq!(epoch_seconds(Some((9, 0))), 9);
    assert_eq!(epoch_seconds(None), 0);
}

#[test]
fn raw_pixels_are_mirrored() {
    let f = SpriteFrame { payload: "AQIDBAUGBwg=".to_string(), width: 2, height: 1, format: 32 };
    let m = f.flipped();
    assert_eq!(m.payload, "BQYHCAECAwQ=");
    assert_eq!((m.width, m.height, m.format), (2, 1, 32));
    let short = SpriteFrame { payload: "AQIDBAUGBwg=".to_string(), width: 4, height: 1, format: 32 };
    assert_eq!(short.flipped().payload, "AQIDBAUGBwg=");
    let bad = SpriteFrame { payload: "not base64!".to_string(), width: 1, height: 1, format: 32 };
    assert_eq!(bad.flipped().payload, "not base64!");
    let data = SpriteData { frames: vec![f], width: 2, height: 1 };
    assert_eq!(data.flipped().frames[0].payload, "BQYHCAECAwQ=");
}

#[test]
fn init_asks_for_the_scenario() {
    let mut s = fresh();
    let r = reducer(&mut s, Action::Init, 0);
    assert!(r.changed);
    assert!(matches!(&r.effects[0], Effect::LoadScenario { path } if path == "assets/scenarios/lakeside"));
    assert_eq!(s.mode, GameMode::MainMenu);
}

#[test]
fn new_game_offers_starters_and_starts_the_run() {
    let mut s = fresh();
    let r = reducer(&mut s, Action::MenuConfirm, 0);
    assert_eq!(s.mode, GameMode::PokemonSelect);
    assert!(matches!(&r.effects[0], Effect::LoadStarterPreview { name } if name == "pikachu"));
    let r = reducer(&mut s, Action::StarterSelect(1), 0);
    assert!(matches!(&r.effects[0], Effect::LoadStarterPreview { name } if name == "charmander"));
    assert!(!reducer(&mut s, Action::StarterSelect(1), 0).changed);
    let r = reducer(&mut s, Action::StarterConfirm, 0);
    assert_eq!(s.mode, GameMode::Overworld);
    assert!(matches!(&r.effects[0], Effect::LoadPokemon { target: SpriteTarget::Player, name } if name == "charmander"));
    assert_eq!(s.message.as_deref(), Some("You chose Charmander! Let's go!"));
    let r = reducer(&mut s, Action::PokemonDidLoad { target: SpriteTarget::Player, info: info("charmander", 39) }, 0);
    assert_eq!(s.party.len(), 1);
    assert_eq!(s.party[0].level, 5);
    assert_eq!(s.party[0].hp, calc_hp(39, 5));
    assert_eq!(s.player_hp, calc_hp(39, 5));
    assert!(matches!(&r.effects[0], Effect::LoadSprite { target: SpriteTarget::Player, url } if url == "https://img/charmander.png"));
}

#[test]
fn moving_off_the_route_does_nothing_but_turns_on_it() {
    let mut s = fresh();
    assert!(!reducer(&mut s, Action::Move(Direction::Up), 0).changed);
    s.mode = GameMode::Overworld;
    let (x, y) = (s.player.x, s.player.y);
    assert!(reducer(&mut s, Action::Move(Direction::Left), 0).changed);
    assert_eq!((s.player.x, s.player.y), (x, y));
    assert_eq!(s.player.facing, Direction::Left);
    reducer(&mut s, Action::Move(Direction::Right), 0);
    assert_eq!((s.player.x, s.player.y), (x + 1, y));
    assert_eq!(s.player.steps, 1);
}

fn in_battle() -> AppState {
    let mut s = fresh();
    s.mode = GameMode::Overworld;
    reducer(&mut s, Action::PokemonDidLoad { target: SpriteTarget::Player, info: info("bulbasaur", 45) }, 0);
    let r = start_battle(&mut s, "pidgey".to_string(), 3, BattleKind::Wild);
    assert!(matches!(&r.effects[0], Effect::LoadPokemon { target: SpriteTarget::Enemy, name } if name == "pidgey"));
    reducer(&mut s, Action::PokemonDidLoad { target: SpriteTarget::Enemy, info: info("pidgey", 40) }, 0);
    s
}

#[test]
fn battle_opens_then_asks_what_to_do() {
    let mut s = in_battle();
    let b = s.battle.as_ref().unwrap();
    assert_eq!(b.stage, BattleStage::Intro);
    assert_eq!(b.message, "A wild Pidgey appeared!");
    assert_eq!(b.enemy_hp, calc_hp(40, 3));
    reducer(&mut s, Action::BattleConfirm, 0);
    let b = s.battle.as_ref().unwrap();
    assert_eq!(b.stage, BattleStage::Menu);
    assert_eq!(b.message, "What will Bulbasaur do?");
}

#[test]
fn running_from_a_wild_battle_returns_to_the_route() {
    let mut s = in_battle();
    reducer(&mut s, Action::BattleConfirm, 0);
    s.battle.as_mut().unwrap().menu_index = 4;
    reducer(&mut s, Action::BattleConfirm, 0);
    assert_eq!(s.battle.as_ref().unwrap().stage, BattleStage::Escape);
    assert_eq!(s.battle.as_ref().unwrap().message, "Got away safely!");
    reducer(&mut s, Action::BattleConfirm, 0);
    assert!(s.battle.is_none());
    assert_eq!(s.mode, GameMode::Overworld);
    assert_eq!(s.steps_since_encounter, 0);
}

#[test]
fn menu_cursor_wraps() {
    let mut s = in_battle();
    reducer(&mut s, Action::BattleConfirm, 0);
    reducer(&mut s, Action::BattleMenuPrev, 0);
    assert_eq!(s.battle.as_ref().unwrap().menu_index, 4);
    reducer(&mut s, Action::BattleMenuNext, 0);
    assert_eq!(s.battle.as_ref().unwrap().menu_index, 0);
}

#[test]
fn a_sure_catch_adds_the_creature() {
    let mut s = in_battle();
    reducer(&mut s, Action::BattleConfirm, 0);
    s.battle.as_mut().unwrap().menu_index = 2;
    let balls = pokeball_count(&s.inventory);
    reducer(&mut s, Action::BattleConfirm, 100);
    assert_eq!(pokeball_count(&s.inventory), balls - 1);
    let b = s.battle.as_ref().unwrap();
    assert!(b.captured);
    assert_eq!(b.stage, BattleStage::Victory);
    assert_eq!(b.message, "Caught Pidgey!");
    assert_eq!(s.party.len(), 2);
    assert_eq!(s.party[1].level, 3);
    assert_eq!(s.party[1].exp, 27);
}

#[test]
fn a_missed_ball_lets_the_enemy_answer() {
    let mut s = in_battle();
    reducer(&mut s, Action::BattleConfirm, 0);
    s.battle.as_mut().unwrap().menu_index = 2;
    reducer(&mut s, Action::BattleConfirm, 0);
    let b = s.battle.as_ref().unwrap();
    assert_eq!(b.stage, BattleStage::EnemyTurn);
    assert_eq!(b.message, "It broke free!");
    assert!(b.pending_enemy_damage.is_some());
}

#[test]
fn potion_heals_and_enemy_then_answers() {
    let mut s = in_battle();
    reducer(&mut s, Action::BattleConfirm, 0);
    s.battle.as_mut().unwrap().player_hp = 1;
    s.battle.as_mut().unwrap().menu_index = 1;
    reducer(&mut s, Action::BattleConfirm, 0);
    assert_eq!(s.battle.as_ref().unwrap().stage, BattleStage::ItemMenu);
    assert_eq!(s.battle.as_ref().unwrap().message, "Choose an item.");
    reducer(&mut s, Action::BattleConfirm, 0);
    let b = s.battle.as_ref().unwrap();
    assert_eq!(b.stage, BattleStage::EnemyTurn);
    assert_eq!(b.player_hp, 21);
    assert_eq!(b.message, "Used Potion! Restored 20 HP.");
    assert_eq!(s.party[0].hp, 21);
    let pending = b.pending_enemy_damage.unwrap();
    reducer(&mut s, Action::BattleConfirm, 0);
    let b = s.battle.as_ref().unwrap();
    assert_eq!(b.player_hp, 21u16.saturating_sub(pending));
}

#[test]
fn attacking_starts_a_combo() {
    let mut s = in_battle();
    reducer(&mut s, Action::BattleConfirm, 0);
    let r = reducer(&mut s, Action::BattleConfirm, 0);
    assert!(matches!(r.effects[0], Effect::PlayAttackSound));
    let b = s.battle.as_ref().unwrap();
    assert!(matches!(b.stage, BattleStage::PlayerCombo | BattleStage::Victory | BattleStage::Defeat));
}

#[test]
fn pause_quit_returns_to_the_menu() {
    let mut s = in_battle();
    reducer(&mut s, Action::PauseOpen, 0);
    assert!(s.pause_menu.is_open);
    reducer(&mut s, Action::PauseSelect(2), 0);
    let r = reducer(&mut s, Action::PauseConfirm, 0);
    assert!(matches!(r.effects[0], Effect::CheckSaveExists));
    assert_eq!(s.mode, GameMode::MainMenu);
    assert!(s.battle.is_none());
}

#[test]
fn terminal_resize_reports_only_real_changes() {
    let mut s = fresh();
    assert!(!reducer(&mut s, Action::UiTerminalResize(80, 24), 0).changed);
    assert!(reducer(&mut s, Action::UiTerminalResize(100, 30), 0).changed);
    assert_eq!(s.terminal_size, (100, 30));
}

#[test]
fn turn_order_is_fastest_first_keeping_ties_in_place() {
    let actors = vec![
        (TurnActor::Player { member_index: 0 }, 45),
        (TurnActor::Enemy, 90),
        (TurnActor::Player { member_index: 1 }, 45),
        (TurnActor::Player { member_index: 2 }, 60),
    ];
    let order = sort_by_speed(&actors);
    assert_eq!(
        order,
        vec![
            (TurnActor::Enemy, 90),
            (TurnActor::Player { member_index: 2 }, 60),
            (TurnActor::Player { member_index: 0 }, 45),
            (TurnActor::Player { member_index: 1 }, 45),
        ]
    );
}

#[test]
fn adding_then_using_an_item_gives_back_the_bag() {
    let start = vec![
        ItemStack { kind: ItemKind::Potion, qty: 2 },
        ItemStack { kind: ItemKind::PokeBall, qty: 5 },
    ];
    let mut inv = start.clone();
    add_item_to_inventory(&mut inv, ItemKind::PokeBall, 1);
    assert_eq!(pokeball_count(&inv), 6);
    assert!(take_item(&mut inv, ItemKind::PokeBall));
    assert_eq!(inv, start);
    assert!(take_item(&mut inv, ItemKind::Potion));
    add_item_to_inventory(&mut inv, ItemKind::Potion, 1);
    assert_eq!(inv, start);
}

#[test]
fn more_experience_never_lowers_the_level() {
    let mut last = 0u8;
    for exp in [0u32, 7, 8, 26, 27, 63, 64, 999, 1000, 1_000_000, u32::MAX] {
        let l = raise_level(1, exp);
        assert!(l >= last);
        assert!(l <= 100);
        if l < 100 {
            assert!((exp as u64) < (l as u64 + 1).pow(3));
        }
        last = l;
    }
    assert_eq!(raise_level(1, 26), 2);
    assert_eq!(raise_level(1, 27), 3);
}

#[test]
fn damage_stays_within_its_spread() {
    // base: ((2 * 50 / 5 + 2) * 40 * 100 / 80) / 50 + 2 = 24
    for roll in 0..16u32 {
        let d = damage_with_roll(50, 100, 80, roll);
        assert!(d >= 1);
        assert!(d <= 24);
        assert!(d >= 24 * 85 / 100);
    }
    assert_eq!(damage_with_roll(50, 100, 80, 0), 20);
    assert_eq!(damage_with_roll(50, 100, 80, 15), 24);
    assert_eq!(guard_damage(7, 0), 7);
    assert!(guard_damage(7, 30) <= 7);
}

#[test]
fn a_message_queued_behind_two_shows_after_three_moves() {
    let mut s = fresh();
    push_message(&mut s, "a".to_string());
    push_message(&mut s, "b".to_string());
    push_message(&mut s, "c".to_string());
    push_message(&mut s, "d".to_string());
    for _ in 0..3 {
        message_next(&mut s);
    }
    assert_eq!(s.message.as_deref(), Some("d"));
}

#[test]
fn fetched_creatures_take_stats_by_name_with_defaults() {
    let stats = vec![("speed".to_string(), 90u16), ("hp".to_string(), 35u16), ("attack".to_string(), 55u16)];
    let p = pokemon_info_from("pikachu".to_string(), None, &stats, Some("f".to_string()), None, None, None);
    assert_eq!(p.base_experience, 60);
    assert_eq!((p.hp, p.attack, p.speed), (35, 55, 90));
    assert_eq!((p.defense, p.sp_attack, p.sp_defense), (35, 35, 35));
    assert_eq!(p.sprite_front_default.as_deref(), Some("f"));
    let q = pokemon_info_from("x".to_string(), Some(112), &vec![], None, None, None, None);
    assert_eq!(q.base_experience, 112);
}

#[test]
fn hit_points_fit_in_sixteen_bits_up_to_the_formula_limit() {
    assert!(stat_fits_now(300, 50));
    assert!(stat_fits_now(300, 100));
    assert!(!stat_fits_now(320, 100));
    assert!(stat_fits_now(1000, 0));
    assert!(!stat_fits_now(40000, 1));
    let mut s = fresh();
    s.player_level = 100;
    assert!(loaded_fits_now(&s, SpriteTarget::Player, &info("big", 300)));
    assert!(!loaded_fits_now(&s, SpriteTarget::Player, &info("huge", 400)));
    assert!(loaded_fits_now(&s, SpriteTarget::Enemy, &info("huge", 400)));
}

#[test]
fn actions_whose_sums_would_overflow_are_not_allowed() {
    let mut s = in_battle();
    assert!(action_allowed(&s, &Action::BattleConfirm));
    assert!(action_allowed(&s, &Action::Tick));
    s.player_sprite.frame_index = usize::MAX;
    assert!(!action_allowed(&s, &Action::Tick));
    s.player_sprite.frame_index = 0;
    reducer(&mut s, Action::BattleConfirm, 0);
    assert!(action_allowed(&s, &Action::BattleMenuNext));
    s.battle.as_mut().unwrap().menu_index = i16::MAX as usize;
    assert!(!action_allowed(&s, &Action::BattleMenuNext));
    assert!(action_allowed(&s, &Action::BattleMenuPrev));
    s.enemy_info = Some(info("giant", 40000));
    assert!(!action_allowed(&s, &Action::BattleConfirm));
    assert!(action_allowed(&s, &Action::Quit));
}
