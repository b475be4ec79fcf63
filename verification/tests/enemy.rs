use handgun_heroes::enemy::{
    claim, color_for_roll, eliminate_all, eliminate_enemy, enemy_paint, enemy_spawn_system,
    is_kill_count_level, occupied_cells, pick_ms, record_enemy, update_enemy_count, EnemyPos,
    EnemySpawn, EnemyState, ENEMY_SPAWN_LIMIT, GRID_CELLS, GRID_X_MAX, GRID_X_MIN, GRID_Y_MAX,
    GRID_Y_MIN, KILL_LEVELS,
};
use handgun_heroes::globals::{Hsl, Kulay};
use handgun_heroes::player::KillCount;
use std::collections::HashMap;

fn state_with(cells: &[(u64, i32, i32)], enemy_count: usize) -> EnemyState {
    let mut pos = HashMap::new();
    for &(entity, x, y) in cells {
        pos.insert(entity, EnemyPos { x, y });
    }
    EnemyState { pos, enemy_count, enemy_count_updated: false }
}

fn on_grid(cell: EnemyPos) -> bool {
    GRID_X_MIN <= cell.x && cell.x <= GRID_X_MAX && GRID_Y_MIN <= cell.y && cell.y <= GRID_Y_MAX
}

fn record_all(state: &mut EnemyState, first_entity: u64, spawns: &[EnemySpawn]) {
    for (i, spawn) in spawns.iter().enumerate() {
        record_enemy(state, first_entity + i as u64, spawn.pos);
    }
}

#[test]
fn a_round_starts_with_a_wave_of_one() {
    let state = EnemyState::default();
    assert!(state.pos.is_empty());
    assert_eq!(state.enemy_count, 1);
    assert!(!state.enemy_count_updated);
}

#[test]
fn kill_levels_are_the_listed_counts() {
    assert_eq!(KILL_LEVELS, [5, 10, 50, 100, 150, 250, 300, 350, 400]);
    for level in KILL_LEVELS {
        assert!(is_kill_count_level(level));
    }
    for kills in [0, 1, 4, 6, 9, 11, 49, 51, 99, 101, 200, 399, 401, 1000] {
        assert!(!is_kill_count_level(kills));
    }
}

#[test]
fn the_wave_grows_once_per_kill_level() {
    let mut state = EnemyState::default();
    update_enemy_count(&mut state, 4);
    assert_eq!((state.enemy_count, state.enemy_count_updated), (1, false));
    update_enemy_count(&mut state, 5);
    assert_eq!((state.enemy_count, state.enemy_count_updated), (2, true));
    update_enemy_count(&mut state, 5);
    assert_eq!((state.enemy_count, state.enemy_count_updated), (2, true));
    update_enemy_count(&mut state, 6);
    assert_eq!((state.enemy_count, state.enemy_count_updated), (2, false));
    update_enemy_count(&mut state, 10);
    assert_eq!((state.enemy_count, state.enemy_count_updated), (3, true));
}

#[test]
fn the_wave_stops_growing_past_the_spawn_limit() {
    let mut state = state_with(&[], ENEMY_SPAWN_LIMIT);
    update_enemy_count(&mut state, 400);
    assert_eq!((state.enemy_count, state.enemy_count_updated), (11, true));
    update_enemy_count(&mut state, 401);
    assert_eq!((state.enemy_count, state.enemy_count_updated), (11, false));
    update_enemy_count(&mut state, 400);
    assert_eq!((state.enemy_count, state.enemy_count_updated), (11, false));
}

#[test]
fn leaving_a_level_releases_the_latch_without_growth() {
    let mut state = state_with(&[], 3);
    state.enemy_count_updated = true;
    update_enemy_count(&mut state, 7);
    assert_eq!((state.enemy_count, state.enemy_count_updated), (3, false));
}

#[test]
fn claim_takes_a_cell_once() {
    let mut cells = vec![EnemyPos { x: 0, y: 3 }];
    assert!(claim(&mut cells, EnemyPos { x: 1, y: 3 }));
    assert!(!claim(&mut cells, EnemyPos { x: 0, y: 3 }));
    assert!(!claim(&mut cells, EnemyPos { x: 1, y: 3 }));
    assert!(claim(&mut cells, EnemyPos { x: 1, y: 4 }));
    assert_eq!(
        cells,
        vec![EnemyPos { x: 0, y: 3 }, EnemyPos { x: 1, y: 3 }, EnemyPos { x: 1, y: 4 }]
    );
}

#[test]
fn occupied_cells_lists_each_cell_once() {
    let state = state_with(&[(1, 0, 3), (2, 0, 3), (3, -9, 6)], 1);
    let mut cells = occupied_cells(&state);
    cells.sort_by_key(|c| (c.x, c.y));
    assert_eq!(cells, vec![EnemyPos { x: -9, y: 6 }, EnemyPos { x: 0, y: 3 }]);
    assert!(occupied_cells(&EnemyState::default()).is_empty());
}

#[test]
fn eliminate_enemy_forgets_a_known_entity() {
    let mut state = state_with(&[(1, 0, 3), (2, 1, 3)], 2);
    assert!(eliminate_enemy(1, &mut state));
    assert!(!state.pos.contains_key(&1));
    assert_eq!(state.pos.get(&2), Some(&EnemyPos { x: 1, y: 3 }));
    assert!(!eliminate_enemy(1, &mut state));
    assert!(!eliminate_enemy(99, &mut state));
    assert_eq!(state.pos.len(), 1);
    assert_eq!(state.enemy_count, 2);
}

#[test]
fn eliminate_all_despawns_known_entities_once() {
    let mut state = state_with(&[(1, 0, 3), (2, 1, 3), (3, 2, 3)], 3);
    let despawn = eliminate_all(&vec![3, 7, 1, 3, 1], &mut state);
    assert_eq!(despawn, vec![3, 1]);
    assert_eq!(state.pos.len(), 1);
    assert!(state.pos.contains_key(&2));
    assert_eq!(eliminate_all(&vec![], &mut state), Vec::<u64>::new());
    assert_eq!(state.pos.len(), 1);
}

#[test]
fn record_enemy_places_or_moves_an_entity() {
    let mut state = EnemyState::default();
    record_enemy(&mut state, 4, EnemyPos { x: 2, y: 5 });
    assert_eq!(state.pos.get(&4), Some(&EnemyPos { x: 2, y: 5 }));
    record_enemy(&mut state, 4, EnemyPos { x: 3, y: 5 });
    assert_eq!(state.pos.get(&4), Some(&EnemyPos { x: 3, y: 5 }));
    assert_eq!(state.pos.len(), 1);
    assert_eq!(state.enemy_count, 1);
}

#[test]
fn the_first_frame_adds_one_enemy_on_the_grid() {
    let mut state = EnemyState::default();
    let spawns = enemy_spawn_system(&mut state, &KillCount(0));
    assert_eq!(spawns.len(), 1);
    assert!(on_grid(spawns[0].pos));
    assert!((7..=9).contains(&spawns[0].ms));
    assert!(state.pos.is_empty());
    assert_eq!((state.enemy_count, state.enemy_count_updated), (1, false));
}

#[test]
fn a_full_wave_adds_nothing() {
    let mut state = state_with(&[(1, 0, 3), (2, 1, 3)], 2);
    assert!(enemy_spawn_system(&mut state, &KillCount(3)).is_empty());
    state.enemy_count = 1;
    assert!(enemy_spawn_system(&mut state, &KillCount(3)).is_empty());
    assert_eq!(state.pos.len(), 2);
}

#[test]
fn a_frame_tops_the_wave_up_with_free_cells() {
    for _ in 0..200 {
        let mut state = state_with(&[(1, 0, 3), (2, 1, 3), (3, 1, 3), (4, 40, 40)], 7);
        let spawns = enemy_spawn_system(&mut state, &KillCount(0));
        assert_eq!(spawns.len(), 4);
        for (i, spawn) in spawns.iter().enumerate() {
            assert!(on_grid(spawn.pos));
            assert_eq!(spawn.ms, 10);
            assert!(spawn.pos != EnemyPos { x: 0, y: 3 });
            assert!(spawn.pos != EnemyPos { x: 1, y: 3 });
            for other in &spawns[..i] {
                assert!(other.pos != spawn.pos);
            }
        }
    }
}

#[test]
fn a_kill_level_grows_the_wave_before_it_is_filled() {
    let mut state = state_with(&[(1, 0, 3)], 1);
    let spawns = enemy_spawn_system(&mut state, &KillCount(5));
    assert_eq!((state.enemy_count, state.enemy_count_updated), (2, true));
    assert_eq!(spawns.len(), 1);
    record_all(&mut state, 10, &spawns);
    assert!(enemy_spawn_system(&mut state, &KillCount(5)).is_empty());
    assert_eq!((state.enemy_count, state.enemy_count_updated), (2, true));
}

#[test]
fn recorded_spawns_never_share_a_cell() {
    let mut state = EnemyState::default();
    let mut next_entity = 1;
    for kills in 0..=400 {
        let spawns = enemy_spawn_system(&mut state, &KillCount(kills));
        record_all(&mut state, next_entity, &spawns);
        next_entity += spawns.len() as u64;
        assert_eq!(state.pos.len(), state.enemy_count);
        assert_eq!(occupied_cells(&state).len(), state.pos.len());
    }
    assert_eq!(state.enemy_count, 10);
    assert!(state.pos.values().all(|cell| on_grid(*cell)));
}

#[test]
fn the_grid_has_nineteen_columns_of_four_cells() {
    assert_eq!((GRID_X_MIN, GRID_X_MAX, GRID_Y_MIN, GRID_Y_MAX), (-9, 9, 3, 6));
    assert_eq!(GRID_CELLS, 76);
}

#[test]
fn a_wave_as_large_as_the_grid_is_filled() {
    let mut state = state_with(&[(1, 0, 3), (2, 5, 5), (3, 30, 30)], GRID_CELLS);
    let spawns = enemy_spawn_system(&mut state, &KillCount(0));
    assert_eq!(spawns.len(), 73);
    record_all(&mut state, 10, &spawns);
    assert_eq!(occupied_cells(&state).len(), 76);
    assert_eq!(state.pos.values().filter(|cell| on_grid(**cell)).count(), 75);
}

#[test]
fn a_wave_larger_than_the_grid_fills_the_grid_and_returns() {
    let mut state = state_with(&[], 80);
    let spawns = enemy_spawn_system(&mut state, &KillCount(0));
    assert_eq!(spawns.len(), 76);
    record_all(&mut state, 1, &spawns);
    assert_eq!(occupied_cells(&state).len(), 76);
    assert!(enemy_spawn_system(&mut state, &KillCount(0)).is_empty());
}

#[test]
fn draws_vary_over_the_grid_and_the_colours() {
    let mut columns = Vec::new();
    let mut rows = Vec::new();
    let mut colors = Vec::new();
    for _ in 0..500 {
        let mut state = EnemyState::default();
        let spawns = enemy_spawn_system(&mut state, &KillCount(0));
        assert_eq!(spawns.len(), 1);
        if !columns.contains(&spawns[0].pos.x) {
            columns.push(spawns[0].pos.x);
        }
        if !rows.contains(&spawns[0].pos.y) {
            rows.push(spawns[0].pos.y);
        }
        if !colors.contains(&spawns[0].color) {
            colors.push(spawns[0].color);
        }
    }
    assert!(columns.len() > 1);
    assert!(rows.len() > 1);
    assert_eq!(colors.len(), 2);
}

#[test]
fn pick_ms_follows_the_wave() {
    for _ in 0..200 {
        for count in [0, 1, 2, 3, 4, 11, 12, 1000] {
            assert!((7..=9).contains(&pick_ms(count)));
        }
        for count in [5, 6, 7, 8] {
            assert_eq!(pick_ms(count), 10);
        }
        for count in [9, 10] {
            assert!((10..=12).contains(&pick_ms(count)));
        }
    }
}

#[test]
fn pick_ms_reaches_every_speed_of_a_band() {
    let mut slow = [false; 3];
    let mut fast = [false; 3];
    for _ in 0..2000 {
        slow[(pick_ms(1) - 7) as usize] = true;
        fast[(pick_ms(9) - 10) as usize] = true;
    }
    assert_eq!(slow, [true; 3]);
    assert_eq!(fast, [true; 3]);
}

#[test]
fn a_roll_of_zero_is_red_and_any_other_blue() {
    assert_eq!(color_for_roll(0), Kulay::Pula);
    assert_eq!(color_for_roll(1), Kulay::Asul);
    assert_eq!(color_for_roll(-1), Kulay::Asul);
}

#[test]
fn enemies_are_painted_by_colour() {
    assert_eq!(enemy_paint(Kulay::Pula), Hsl { hue: 0, saturation: 50, lightness: 50 });
    assert_eq!(enemy_paint(Kulay::Asul), Hsl { hue: 240, saturation: 80, lightness: 50 });
}
