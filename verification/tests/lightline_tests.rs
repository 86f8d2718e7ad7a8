use std::collections::HashSet;
use std::collections::VecDeque;

use tui_games::lightline::action::{Action, Effect};
use tui_games::lightline::danger::{advance_toward, CollapsePhase, CollapseState, HunterState};
use tui_games::lightline::procgen::{choose_danger_mode, generate_floor};
use tui_games::lightline::reducer::reducer;
use tui_games::lightline::state::{
    AppState, Direction, GameMode, MapState, RuntimeAnchor, RuntimeAnchorKind, Tile, TrailState,
};

fn walkable_neighbor(state: &AppState, x: u16, y: u16) -> Option<(Direction, u16, u16)> {
    let candidates = [
        (Direction::Right, x + 1, y),
        (Direction::Left, x.saturating_sub(1), y),
        (Direction::Down, x, y + 1),
        (Direction::Up, x, y.saturating_sub(1)),
    ];
    candidates
        .into_iter()
        .find(|(_, nx, ny)| state.map.is_walkable(*nx, *ny))
}

fn opposite(dir: Direction) -> Direction {
    match dir {
        Direction::Right => Direction::Left,
        Direction::Left => Direction::Right,
        Direction::Down => Direction::Up,
        Direction::Up => Direction::Down,
    }
}

fn has_path(map: &MapState, start: (u16, u16), end: (u16, u16)) -> bool {
    let mut visited = vec![false; map.width as usize * map.height as usize];
    let mut queue = VecDeque::new();
    let idx = |x: u16, y: u16| y as usize * map.width as usize + x as usize;
    visited[idx(start.0, start.1)] = true;
    queue.push_back(start);
    while let Some((x, y)) = queue.pop_front() {
        if (x, y) == end {
            return true;
        }
        for (dx, dy) in [(0i16, -1), (0, 1), (-1, 0), (1, 0)] {
            let nx = x as i16 + dx;
            let ny = y as i16 + dy;
            if nx < 0 || ny < 0 || nx >= map.width as i16 || ny >= map.height as i16 {
                continue;
            }
            let (nx, ny) = (nx as u16, ny as u16);
            let ni = idx(nx, ny);
            if !visited[ni] && map.is_walkable(nx, ny) {
                visited[ni] = true;
                queue.push_back((nx, ny));
            }
        }
    }
    false
}

#[test]
fn trail_deposit_and_take() {
    let mut trail = TrailState::new(4, 4);
    trail.deposit(2, 2, 3);
    assert_eq!(trail.take(2, 2), 3);
    assert_eq!(trail.take(2, 2), 0);
}

#[test]
fn out_of_bounds_tile_is_wall() {
    let map = MapState::filled("test", 4, 4, Tile::Floor);
    assert_eq!(map.tile(99, 99), Tile::Wall);
}

#[test]
fn collapse_transitions_from_warning_to_active() {
    let mut state = CollapseState::new(5, 2);
    assert!(state.maybe_start_warning(5));
    assert_eq!(state.phase, CollapsePhase::Warning);
    assert!(!state.tick_warning());
    assert!(state.tick_warning());
    assert_eq!(state.phase, CollapsePhase::Active);
}

#[test]
fn hunter_moves_toward_target_on_open_map() {
    let map = MapState::filled("test", 8, 8, Tile::Floor);
    let mut hunter = HunterState::new(1, 1);
    advance_toward(&mut hunter, (5, 1), &map);
    assert_eq!((hunter.x, hunter.y), (2, 1));
}

#[test]
fn danger_mode_is_deterministic() {
    let a = choose_danger_mode(42, 7);
    let b = choose_danger_mode(42, 7);
    assert_eq!(a, b);
}

#[test]
fn generated_floor_has_required_anchors() {
    let floor = generate_floor(77, 0, 36, 24).expect("floor");
    let kinds: HashSet<RuntimeAnchorKind> = floor.anchors.iter().map(|a| a.kind).collect();
    assert!(kinds.contains(&RuntimeAnchorKind::PlayerStart));
    assert!(kinds.contains(&RuntimeAnchorKind::Exit));
    assert!(kinds.contains(&RuntimeAnchorKind::Beacon));
    assert!(kinds.contains(&RuntimeAnchorKind::Relic));
    assert!(kinds.contains(&RuntimeAnchorKind::Switch));
}

#[test]
fn fingerprint_stays_stable_for_same_inputs() {
    let a = generate_floor(99, 2, 40, 26).expect("floor a");
    let b = generate_floor(99, 2, 40, 26).expect("floor b");
    assert_eq!(a.fingerprint, b.fingerprint);
}

#[test]
fn labyrinth_has_path_from_start_to_exit() {
    for seed in [42u64, 123, 999, 7777] {
        let floor = generate_floor(seed, 0, 36, 24).expect("floor");
        let start = floor
            .anchors
            .iter()
            .find(|a| a.kind == RuntimeAnchorKind::PlayerStart)
            .unwrap();
        let exit = floor
            .anchors
            .iter()
            .find(|a| a.kind == RuntimeAnchorKind::Exit)
            .unwrap();
        assert!(
            has_path(&floor.map, (start.x, start.y), (exit.x, exit.y)),
            "seed {seed}: no path from start to exit"
        );
    }
}

#[test]
fn labyrinth_has_walls_on_border() {
    let floor = generate_floor(42, 0, 36, 24).expect("floor");
    for x in 0..floor.map.width {
        assert_eq!(floor.map.tile(x, 0), Tile::Wall);
        assert_eq!(floor.map.tile(x, floor.map.height - 1), Tile::Wall);
    }
    for y in 0..floor.map.height {
        assert_eq!(floor.map.tile(0, y), Tile::Wall);
        assert_eq!(floor.map.tile(floor.map.width - 1, y), Tile::Wall);
    }
}

#[test]
fn labyrinth_generation_is_deterministic() {
    let a = generate_floor(555, 3, 40, 28).expect("a");
    let b = generate_floor(555, 3, 40, 28).expect("b");
    assert_eq!(a.map.tiles, b.map.tiles);
    assert_eq!(a.fingerprint, b.fingerprint);
}

#[test]
fn different_seeds_produce_different_mazes() {
    let a = generate_floor(111, 0, 36, 24).expect("a");
    let b = generate_floor(222, 0, 36, 24).expect("b");
    assert_ne!(a.map.tiles, b.map.tiles);
}

#[test]
fn moving_consumes_light() {
    let mut state = AppState::new(123);
    state.player.light_current = 10;
    state.player.light_max = 10;
    let floor = generate_floor(123, 0, 36, 24).expect("floor");
    state.apply_generated_floor(floor);

    let (x, y) = state.player_pos();
    let (dir, ex, ey) = walkable_neighbor(&state, x, y).expect("walkable neighbor");
    let _ = reducer(&mut state, Action::Move(dir, false));
    assert_eq!(state.player_pos(), (ex, ey));
    assert_eq!(state.player.light_current, 9);
}

#[test]
fn walking_on_lit_trail_does_not_consume_light() {
    let mut state = AppState::new(456);
    state.player.light_current = 10;
    state.player.light_max = 10;
    let floor = generate_floor(456, 0, 36, 24).expect("floor");
    state.apply_generated_floor(floor);

    let (x, y) = state.player_pos();
    let (dir, _, _) = walkable_neighbor(&state, x, y).expect("walkable neighbor");

    let _ = reducer(&mut state, Action::Move(dir, false));
    assert_eq!(state.player.light_current, 9);
    assert_eq!(state.trail.charge_at(x, y), 1);

    let _ = reducer(&mut state, Action::Move(opposite(dir), false));
    assert_eq!(state.player.light_current, 9);

    let _ = reducer(&mut state, Action::Move(dir, true));
    assert_eq!(state.player.light_current, 10);
    assert_eq!(state.trail.charge_at(x, y), 0);
}

#[test]
fn trail_deposit_caps_at_one() {
    let mut state = AppState::new(456);
    state.player.light_current = 10;
    state.player.light_max = 10;
    let floor = generate_floor(456, 0, 36, 24).expect("floor");
    state.apply_generated_floor(floor);

    let (x, y) = state.player_pos();
    let (dir, _, _) = walkable_neighbor(&state, x, y).expect("walkable neighbor");

    let _ = reducer(&mut state, Action::Move(dir, false));
    let _ = reducer(&mut state, Action::Move(opposite(dir), false));
    let _ = reducer(&mut state, Action::Move(dir, false));
    assert_eq!(state.trail.charge_at(x, y), 1);
}

#[test]
fn reaching_exit_triggers_descend() {
    let mut state = AppState::new(789);
    state.player.light_current = 20;
    state.player.light_max = 20;
    let floor = generate_floor(789, 0, 36, 24).expect("floor");
    state.apply_generated_floor(floor);

    let (exit_x, exit_y) = state.exit_pos().expect("exit");
    let approach = [
        (Direction::Right, exit_x.saturating_sub(1), exit_y),
        (Direction::Left, exit_x + 1, exit_y),
        (Direction::Down, exit_x, exit_y.saturating_sub(1)),
        (Direction::Up, exit_x, exit_y + 1),
    ];
    let (dir, adj_x, adj_y) = approach
        .into_iter()
        .find(|(_, ax, ay)| state.map.is_walkable(*ax, *ay))
        .expect("exit has walkable neighbor");

    state.player.x = adj_x;
    state.player.y = adj_y;
    if let Some(start) = state
        .anchors
        .iter_mut()
        .find(|a| a.kind == RuntimeAnchorKind::PlayerStart)
    {
        start.x = adj_x;
        start.y = adj_y;
    }

    let _ = reducer(&mut state, Action::Move(dir, false));
    assert_eq!(state.floor_index, 1);
    assert_eq!(state.mode, GameMode::Boot);
}

fn start_anchor(x: u16, y: u16) -> RuntimeAnchor {
    RuntimeAnchor {
        kind: RuntimeAnchorKind::PlayerStart,
        x,
        y,
        tag: None,
    }
}

#[test]
fn illegal_move_when_lightline_is_disconnected_from_start() {
    let mut state = AppState::new(999);
    state.mode = GameMode::Exploration;
    state.map = MapState::filled("test", 5, 3, Tile::Floor);
    state.trail = TrailState::new(5, 3);
    state.anchors = vec![start_anchor(0, 1)];
    state.player.x = 3;
    state.player.y = 1;
    state.player.light_current = 10;
    state.player.light_max = 10;
    state.player.steps = 5;
    state.trail.deposit(3, 1, 1);
    let idx = 1usize * state.map.width as usize + 4usize;
    state.map.tiles[idx] = Tile::Floor;

    let _ = reducer(&mut state, Action::Move(Direction::Right, false));
    assert_eq!(state.player_pos(), (3, 1));
    assert_eq!(state.player.light_current, 10);
    assert_eq!(
        state.last_status.as_deref(),
        Some("Illegal move: would break the lightline to start.")
    );
}

#[test]
fn collect_move_is_illegal_if_it_disconnects_chain_to_start() {
    let mut state = AppState::new(1001);
    state.mode = GameMode::Exploration;
    state.map = MapState::filled("line", 5, 1, Tile::Floor);
    state.trail = TrailState::new(5, 1);
    state.anchors = vec![start_anchor(0, 0)];
    state.player.x = 2;
    state.player.y = 0;
    state.player.light_current = 10;
    state.player.light_max = 10;
    state.player.steps = 4;
    for x in 0..=3u16 {
        state.trail.deposit(x, 0, 1);
    }
    state.map.tiles[3] = Tile::Floor;

    let _ = reducer(&mut state, Action::Move(Direction::Right, true));
    assert_eq!(state.player_pos(), (2, 0));
    assert_eq!(state.trail.charge_at(2, 0), 1);
    assert_eq!(
        state.last_status.as_deref(),
        Some("Illegal move: would break the lightline to start.")
    );
}

#[test]
fn collect_from_unlit_tile_does_not_count_as_chain_segment() {
    let mut state = AppState::new(1002);
    state.mode = GameMode::Exploration;
    state.map = MapState::filled("line", 4, 1, Tile::Floor);
    state.trail = TrailState::new(4, 1);
    state.anchors = vec![start_anchor(0, 0)];
    state.player.x = 1;
    state.player.y = 0;
    state.player.light_current = 10;
    state.player.light_max = 10;
    state.player.steps = 1;

    let _ = reducer(&mut state, Action::Move(Direction::Right, true));
    assert_eq!(state.player_pos(), (1, 0));
    assert_eq!(
        state.last_status.as_deref(),
        Some("Illegal move: would break the lightline to start.")
    );
}

#[test]
fn move_is_illegal_if_it_disconnects_any_lit_segment() {
    let mut state = AppState::new(1003);
    state.mode = GameMode::Exploration;
    state.map = MapState::filled("grid", 4, 3, Tile::Floor);
    state.trail = TrailState::new(4, 3);
    state.anchors = vec![start_anchor(0, 1)];
    state.player.x = 1;
    state.player.y = 1;
    state.player.light_current = 10;
    state.player.light_max = 10;
    state.player.steps = 3;
    for &(x, y) in &[(0, 1), (0, 0), (1, 0), (2, 0), (2, 1)] {
        state.trail.deposit(x, y, 1);
    }
    state.trail.deposit(1, 1, 1);
    state.trail.deposit(1, 2, 1);

    let _ = reducer(&mut state, Action::Move(Direction::Right, true));
    assert_eq!(state.player_pos(), (1, 1));
    assert_eq!(
        state.last_status.as_deref(),
        Some("Illegal move: would break the lightline to start.")
    );
    assert_eq!(state.trail.charge_at(1, 1), 1);
}

#[test]
fn starting_a_run_requests_the_first_floor() {
    let mut state = AppState::new(5);
    let out = reducer(&mut state, Action::Init);
    assert!(out.changed);
    assert!(out.effects.iter().any(|e| matches!(e, Effect::GenerateFloor { .. })));
}
