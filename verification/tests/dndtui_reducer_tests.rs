use tui_games::dndtui::action::{Action, Effect};
use tui_games::dndtui::prompt::PromptSchemas;
use tui_games::dndtui::reducer::{combat_fits, reducer, stat_row_step};
use tui_games::dndtui::scenario::{build_legend, tile_from_name, LegendEntry};
use tui_games::dndtui::schema::ActionInterpretation;
use tui_games::dndtui::state::{
    AppState, CombatState, Direction, EncounterState, GameMode, ItemStack, NpcState, Tile, Trigger, ItemState,
};

fn schemas() -> PromptSchemas {
    PromptSchemas {
        dialogue: "{}".to_string(),
        action: "{}".to_string(),
    }
}

fn item(id: &str) -> ItemStack {
    ItemStack {
        id: id.to_string(),
        name: id.to_string(),
        qty: 1,
    }
}

fn set_floor_map(state: &mut AppState, width: u16, height: u16) {
    state.map.width = width;
    state.map.height = height;
    state.map.tiles = vec![Tile::Floor; width as usize * height as usize];
}

#[test]
fn inventory_select_clamps_to_last_item() {
    let mut state = AppState::default();
    state.player.inventory = vec![item("a"), item("b"), item("c")];

    let _ = reducer(&mut state, Action::InventorySelect(999), &schemas());
    assert_eq!(state.inventory_selected, 2);
}

#[test]
fn open_inventory_clamps_existing_selection() {
    let mut state = AppState::default();
    state.mode = GameMode::Exploration;
    state.player.inventory = vec![item("a")];
    state.inventory_selected = 10;

    let _ = reducer(&mut state, Action::OpenInventory, &schemas());
    assert_eq!(state.mode, GameMode::Inventory);
    assert_eq!(state.inventory_selected, 0);
}

#[test]
fn close_overlay_from_inventory_returns_to_exploration() {
    let mut state = AppState::default();
    state.mode = GameMode::Inventory;

    let _ = reducer(&mut state, Action::CloseOverlay, &schemas());
    assert_eq!(state.mode, GameMode::Exploration);
}

#[test]
fn scroll_log_never_goes_negative() {
    let mut state = AppState::default();
    state.log_scroll = 0;

    let _ = reducer(&mut state, Action::ScrollLog(-20), &schemas());
    assert_eq!(state.log_scroll, 0);

    state.log_scroll = 3;
    let _ = reducer(&mut state, Action::ScrollLog(-2), &schemas());
    assert_eq!(state.log_scroll, 1);
}

#[test]
fn scroll_log_uses_saturating_math_without_i16_wrap() {
    let mut state = AppState::default();
    state.log_scroll = 40_000;

    let _ = reducer(&mut state, Action::ScrollLog(-1), &schemas());
    assert_eq!(state.log_scroll, 39_999);

    let _ = reducer(&mut state, Action::ScrollLog(i16::MAX), &schemas());
    assert_eq!(state.log_scroll, u16::MAX);
}

#[test]
fn cannot_walk_onto_npc_tile() {
    let mut state = AppState::default();
    state.mode = GameMode::Exploration;
    set_floor_map(&mut state, 3, 3);
    state.set_player_pos(0, 0);
    state.npcs.push(NpcState {
        id: "npc-1".to_string(),
        name: "Guard".to_string(),
        x: 1,
        y: 0,
        persona: "stern".to_string(),
        dialogue_prompt: "halt".to_string(),
    });

    let _ = reducer(&mut state, Action::Move(Direction::Right), &schemas());
    assert_eq!(state.player_pos(), (0, 0));
    assert_eq!(state.mode, GameMode::Exploration);
}

fn bandit() -> EncounterState {
    EncounterState {
        id: "enc-1".to_string(),
        name: "Bandit".to_string(),
        x: 1,
        y: 0,
        hp: 10,
        atk: 0,
        defeated: false,
    }
}

#[test]
fn bumping_enemy_starts_combat_without_entering_tile() {
    let mut state = AppState::default();
    state.mode = GameMode::Exploration;
    set_floor_map(&mut state, 3, 3);
    state.set_player_pos(0, 0);
    state.rng_seed = 1;
    state.encounters.push(bandit());

    let _ = reducer(&mut state, Action::Move(Direction::Right), &schemas());
    assert_eq!(state.player_pos(), (0, 0));
    assert_eq!(state.mode, GameMode::Combat);
}

#[test]
fn enemy_initiative_no_longer_stalls_combat() {
    let mut state = AppState::default();
    state.mode = GameMode::Exploration;
    set_floor_map(&mut state, 3, 3);
    state.set_player_pos(0, 0);
    state.player.stats.dexterity = -100;
    state.rng_seed = 1;
    state.encounters.push(bandit());

    let _ = reducer(&mut state, Action::Move(Direction::Right), &schemas());
    let combat = state.combat.as_ref().expect("combat should start");
    assert!(
        combat.player_turn,
        "player should receive a turn after enemy opener"
    );
    assert!(
        combat.round >= 2,
        "round should advance when enemy acts first"
    );
}

#[test]
fn custom_action_accepts_non_skill_check_kind() {
    let mut state = AppState::default();
    state.mode = GameMode::CustomAction;
    state.rng_seed = 7;

    let action = ActionInterpretation {
        kind: "attack".to_string(),
        skill: "athletics".to_string(),
        difficulty: "medium".to_string(),
        reason: "Throw torch at the target.".to_string(),
        on_success: "Your throw lands cleanly.".to_string(),
        on_failure: "The torch misses wide.".to_string(),
    };

    let _ = reducer(&mut state, Action::CustomActionInterpreted(action), &schemas());

    assert_eq!(state.mode, GameMode::Exploration);
    assert!(state.log.iter().any(|entry| entry
        .text
        .contains("Interpreting 'attack' as a skill check.")));
    assert!(state
        .log
        .iter()
        .any(|entry| entry.text.contains("Check Athletics")));
    assert!(state
        .log
        .iter()
        .any(|entry| entry.text == "Your throw lands cleanly."
            || entry.text == "The torch misses wide."));
}

#[test]
fn legend_parsing() {
    let entries = vec![LegendEntry {
        ch: "#".to_string(),
        tile: "wall".to_string(),
    }];
    let legend = build_legend(&entries).expect("legend");
    assert_eq!(legend.tile_for('#'), Some(Tile::Wall));
}

#[test]
fn legend_rejects_unknown_tiles_and_missing_characters() {
    let unknown = vec![LegendEntry { ch: "~".to_string(), tile: "lava".to_string() }];
    assert_eq!(build_legend(&unknown).unwrap_err(), "Unknown tile: lava");
    let missing = vec![LegendEntry { ch: String::new(), tile: "wall".to_string() }];
    assert_eq!(build_legend(&missing).unwrap_err(), "Legend entry missing character");
    assert_eq!(tile_from_name("ROAD"), Some(Tile::Road));
}

#[test]
fn picking_up_an_item_stacks_it_and_saves() {
    let mut state = AppState::default();
    state.mode = GameMode::Exploration;
    set_floor_map(&mut state, 3, 3);
    state.player.inventory = vec![ItemStack { id: "torch".to_string(), name: "Torch".to_string(), qty: 2 }];
    state.items.push(ItemState { id: "torch".to_string(), name: "Torch".to_string(), x: 0, y: 0, qty: 3 });
    let out = reducer(&mut state, Action::Interact, &schemas());
    assert!(state.items.is_empty());
    assert_eq!(state.player.inventory[0].qty, 5);
    assert_eq!(state.log.last().unwrap().text, "Picked up Torch x3");
    assert!(matches!(out.effects.as_slice(), [Effect::SaveGame { since: 0, .. }]));
    assert_eq!(state.pending_transcript_index, Some(1));
}

#[test]
fn enter_trigger_fires_once() {
    let mut state = AppState::default();
    state.mode = GameMode::Exploration;
    set_floor_map(&mut state, 3, 1);
    state.triggers.push(Trigger::OnEnter { x: 1, y: 0, message: "A cold wind.".to_string() });
    let _ = reducer(&mut state, Action::Move(Direction::Right), &schemas());
    let _ = reducer(&mut state, Action::Move(Direction::Left), &schemas());
    let _ = reducer(&mut state, Action::Move(Direction::Right), &schemas());
    let count = state.log.iter().filter(|e| e.text == "A cold wind.").count();
    assert_eq!(count, 1);
    assert_eq!(state.fired_triggers, vec!["enter:1:0".to_string()]);
}

#[test]
fn creation_steps_clamp_at_both_ends_and_confirm_builds_the_player() {
    let mut state = AppState::default();
    let _ = reducer(&mut state, Action::CreationBack, &schemas());
    let _ = reducer(&mut state, Action::CreationSelectClass(99), &schemas());
    assert_eq!(state.creation.class_index, 4);
    let _ = reducer(&mut state, Action::CreationSelectStat(0), &schemas());
    let _ = reducer(&mut state, Action::CreationAdjustStat(100), &schemas());
    assert_eq!(state.creation.stats.strength, 15);
    assert_eq!(state.creation.points_remaining, 18);
    let _ = reducer(&mut state, Action::CreationNameChanged("  ".to_string()), &schemas());
    let _ = reducer(&mut state, Action::CreationConfirm, &schemas());
    assert_eq!(state.player.name, "Adventurer");
    assert_eq!(state.player.class_name, "Cleric");
    assert_eq!(state.player.max_hp, 9);
    assert_eq!(state.mode, GameMode::Exploration);
}

#[test]
fn talking_without_anyone_near_logs_a_message() {
    let mut state = AppState::default();
    state.mode = GameMode::Exploration;
    let out = reducer(&mut state, Action::Talk, &schemas());
    assert!(out.changed);
    assert_eq!(state.log.last().unwrap().text, "No one nearby to talk to.");
}

#[test]
fn missing_save_errors_are_not_logged() {
    let mut state = AppState::default();
    let _ = reducer(&mut state, Action::LoadError("No such file or directory".to_string()), &schemas());
    assert!(state.log.is_empty());
    let _ = reducer(&mut state, Action::LoadError("disk on fire".to_string()), &schemas());
    assert_eq!(state.log.last().unwrap().text, "Load failed: disk on fire");
}

fn in_combat_with(enemy: EncounterState) -> AppState {
    let mut state = AppState::default();
    state.mode = GameMode::Combat;
    set_floor_map(&mut state, 3, 3);
    state.set_player_pos(0, 0);
    state.rng_seed = 3;
    state.combat = Some(CombatState { enemy_id: enemy.id.clone(), player_turn: true, movement_left: 6, round: 1 });
    state.encounters.push(enemy);
    state
}

#[test]
fn a_huge_attack_bonus_still_resolves_when_the_sums_fit() {
    let mut enemy = bandit();
    enemy.atk = 1_500_000_000;
    let mut state = in_combat_with(enemy);
    state.player.hp = 100;
    assert!(combat_fits(&state, &Action::CombatEndTurn));
    let _ = reducer(&mut state, Action::CombatEndTurn, &schemas());
    assert!(state.player.hp <= 100 - 1_500_000_001);
    assert!(state.player.hp >= 100 - 1_500_000_006);
    assert_eq!(state.mode, GameMode::Exploration);
    assert!(state.log.iter().any(|e| e.text == "You fall unconscious."));
}

#[test]
fn combat_that_would_overflow_is_refused() {
    let mut enemy = bandit();
    enemy.atk = i32::MAX;
    let state = in_combat_with(enemy);
    assert!(!combat_fits(&state, &Action::CombatEndTurn));
    assert!(combat_fits(&state, &Action::Move(Direction::Down)));

    let mut low = in_combat_with(bandit());
    low.player.hp = i32::MIN + 5;
    let mut strong = bandit();
    strong.atk = 10;
    low.encounters[0] = strong;
    assert!(!combat_fits(&low, &Action::CombatEndTurn));
    low.combat.as_mut().unwrap().player_turn = false;
    assert!(combat_fits(&low, &Action::CombatEndTurn));
    assert!(combat_fits(&AppState::default(), &Action::CombatAttack));
}

#[test]
fn stat_rows_wrap_round_both_ways() {
    assert_eq!(stat_row_step(0, false), 5);
    assert_eq!(stat_row_step(5, true), 0);
    assert_eq!(stat_row_step(2, true), 3);
    assert_eq!(stat_row_step(2, false), 1);
    for s in 0..6 {
        assert_eq!(stat_row_step(stat_row_step(s, true), false), s);
    }
}
