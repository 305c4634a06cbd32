use rand::rngs::StdRng;
use rand::SeedableRng;
use snake_game::game::MOVE_INTERVAL_US;
use snake_game::grid::{cell_rect, next_head};
use snake_game::{Heading, Key, SnakeGame};

fn game_20x20() -> SnakeGame {
    SnakeGame::new(20, 20, 20, StdRng::seed_from_u64(7)).unwrap()
}

fn assert_fresh(g: &SnakeGame) {
    assert_eq!(g.snake, vec![(10, 10)]);
    assert_eq!(g.apple, (15, 15));
    assert_eq!(g.dir, (0, 0));
    assert_eq!(g.score, 0);
    assert!(!g.game_over);
    assert_eq!(g.move_timer, 0);
}

#[test]
fn new_game_starts_fresh() {
    let g = game_20x20();
    assert_fresh(&g);
    assert_eq!(g.move_interval, 75_000);
    assert_eq!(g.grid_count_x, 20);
    assert_eq!(g.grid_count_y, 20);
    assert_eq!(g.grid_size, 20);
    assert!(!g.is_over());
}

#[test]
fn new_rejects_grids_too_small_for_start_cells() {
    assert!(SnakeGame::new(15, 20, 20, StdRng::seed_from_u64(1)).is_none());
    assert!(SnakeGame::new(20, 15, 20, StdRng::seed_from_u64(1)).is_none());
    assert!(SnakeGame::new(0, 0, 20, StdRng::seed_from_u64(1)).is_none());
    assert!(SnakeGame::new(16, 16, 20, StdRng::seed_from_u64(1)).is_some());
}

#[test]
fn scenario_move_right_one_cell() {
    let mut g = game_20x20();
    g.set_heading(Heading::Right);
    assert_eq!(g.dir, (1, 0));
    g.advance(75_000);
    assert_eq!(g.snake, vec![(11, 10)]);
    assert_eq!(g.score, 0);
    assert_eq!(g.apple, (15, 15));
    assert_eq!(g.move_timer, 0);
}

#[test]
fn scenario_eat_food_grows_and_scores() {
    let mut g = game_20x20();
    g.apple = (11, 10);
    g.set_heading(Heading::Right);
    g.advance(MOVE_INTERVAL_US);
    assert_eq!(g.snake, vec![(10, 10), (11, 10)]);
    assert_eq!(g.score, 1);
    assert!(!g.snake.contains(&g.apple));
    assert!(g.apple.0 >= 0 && g.apple.0 < 20);
    assert!(g.apple.1 >= 1 && g.apple.1 < 20);
}

#[test]
fn food_respawn_stays_in_allowed_rows_over_many_draws() {
    for seed in 0..200u64 {
        let mut g = SnakeGame::new(20, 20, 20, StdRng::seed_from_u64(seed)).unwrap();
        g.apple = (11, 10);
        g.set_heading(Heading::Right);
        g.advance(MOVE_INTERVAL_US);
        assert_eq!(g.score, 1);
        assert!(g.apple.0 >= 0 && g.apple.0 < 20);
        assert!(g.apple.1 >= 1 && g.apple.1 < 20);
        assert!(!g.snake.contains(&g.apple));
    }
}

#[test]
fn food_avoids_a_long_snake() {
    for seed in 0..50u64 {
        let mut g = SnakeGame::new(16, 16, 20, StdRng::seed_from_u64(seed)).unwrap();
        let mut cells = Vec::new();
        for y in 1..16 {
            for x in 0..16 {
                if y != 15 || x < 13 {
                    cells.push((x, y));
                }
            }
        }
        cells.push((13, 15));
        g.snake = cells;
        g.apple = (14, 15);
        g.set_heading(Heading::Right);
        g.advance(MOVE_INTERVAL_US);
        assert_eq!(g.score, 1);
        assert_eq!(g.apple, (15, 15));
    }
}

#[test]
fn food_stays_put_when_no_cell_is_free() {
    let mut g = SnakeGame::new(16, 16, 20, StdRng::seed_from_u64(3)).unwrap();
    let mut cells = Vec::new();
    for y in 1..16 {
        for x in 0..16 {
            if (x, y) != (0, 1) && (x, y) != (1, 1) {
                cells.push((x, y));
            }
        }
    }
    cells.push((1, 1));
    g.snake = cells;
    g.apple = (0, 1);
    g.set_heading(Heading::Left);
    g.advance(MOVE_INTERVAL_US);
    assert!(!g.is_over());
    assert_eq!(g.score, 1);
    assert_eq!(g.snake.len(), 240);
    assert_eq!(g.apple, (0, 1));
}

#[test]
fn reset_and_restart_keep_the_move_interval() {
    let mut g = game_20x20();
    g.move_interval = 10_000;
    g.set_heading(Heading::Right);
    g.advance(10_000);
    assert_eq!(g.snake, vec![(11, 10)]);
    g.reset();
    assert_fresh(&g);
    assert_eq!(g.move_interval, 10_000);
    g.snake = vec![(8, 10), (9, 10), (10, 10)];
    g.dir = (-1, 0);
    g.advance(10_000);
    assert!(g.is_over());
    g.key_down(Key::Restart);
    assert_fresh(&g);
    assert_eq!(g.move_interval, 10_000);
    assert_eq!(g.grid_count_x, 20);
    assert_eq!(g.grid_size, 20);
}

#[test]
fn scenario_turn_away_from_body_does_not_collide() {
    let mut g = game_20x20();
    g.snake = vec![(6, 5), (5, 5)];
    g.score = 0;
    g.set_heading(Heading::Left);
    g.advance(MOVE_INTERVAL_US);
    assert!(!g.is_over());
    assert_eq!(g.snake, vec![(5, 5), (4, 5)]);
}

#[test]
fn scenario_reversal_into_body_ends_game() {
    let mut g = game_20x20();
    g.snake = vec![(5, 5), (6, 5)];
    g.set_heading(Heading::Left);
    g.advance(MOVE_INTERVAL_US);
    assert!(g.is_over());
    assert_eq!(g.snake, vec![(5, 5), (6, 5)]);
    assert_eq!(g.score, 0);
}

#[test]
fn reversal_of_single_cell_snake_is_harmless() {
    let mut g = game_20x20();
    g.set_heading(Heading::Right);
    g.advance(MOVE_INTERVAL_US);
    g.set_heading(Heading::Left);
    g.advance(MOVE_INTERVAL_US);
    assert!(!g.is_over());
    assert_eq!(g.snake, vec![(10, 10)]);
}

#[test]
fn scenario_wrap_right_edge() {
    assert_eq!(next_head((19, 10), (1, 0), 20, 20), (0, 10));
    let mut g = game_20x20();
    g.snake = vec![(19, 10)];
    g.set_heading(Heading::Right);
    g.advance(MOVE_INTERVAL_US);
    assert_eq!(g.snake, vec![(0, 10)]);
}

#[test]
fn wrap_top_and_left_edges() {
    assert_eq!(next_head((0, 0), (-1, 0), 20, 20), (19, 0));
    assert_eq!(next_head((0, 0), (0, -1), 20, 20), (0, 19));
    assert_eq!(next_head((3, 19), (0, 1), 20, 20), (3, 0));
    let mut g = game_20x20();
    g.snake = vec![(4, 0)];
    g.set_heading(Heading::Up);
    g.advance(MOVE_INTERVAL_US);
    assert_eq!(g.snake, vec![(4, 19)]);
}

#[test]
fn wrap_far_off_grid_sums() {
    assert_eq!(next_head((5, 5), (-100, 250), 20, 20), (5, 15));
    assert_eq!(next_head((i32::MIN, i32::MAX), (i32::MIN, i32::MAX), 7, 9), (3, 2));
    for x in -3..23 {
        for dx in [-41, -1, 0, 1, 41] {
            let (nx, ny) = next_head((x, x), (dx, -dx), 20, 13);
            assert!(nx >= 0 && nx < 20);
            assert!(ny >= 0 && ny < 13);
        }
    }
}

#[test]
fn stall_below_interval_changes_nothing() {
    let mut g = game_20x20();
    g.set_heading(Heading::Down);
    for _ in 0..10 {
        g.advance(0);
    }
    assert_eq!(g.snake, vec![(10, 10)]);
    assert_eq!(g.move_timer, 0);
    g.advance(30_000);
    g.advance(44_999);
    assert_eq!(g.snake, vec![(10, 10)]);
    assert_eq!(g.apple, (15, 15));
    assert_eq!(g.score, 0);
    assert_eq!(g.move_timer, 74_999);
    g.advance(1);
    assert_eq!(g.snake, vec![(10, 11)]);
    assert_eq!(g.move_timer, 0);
}

#[test]
fn long_frame_takes_a_single_step() {
    let mut g = game_20x20();
    g.set_heading(Heading::Down);
    g.advance(u64::MAX);
    assert_eq!(g.snake, vec![(10, 11)]);
    assert_eq!(g.move_timer, 0);
}

#[test]
fn no_heading_means_no_movement() {
    let mut g = game_20x20();
    g.advance(MOVE_INTERVAL_US);
    assert_eq!(g.snake, vec![(10, 10)]);
    assert_eq!(g.move_timer, 0);
    assert!(!g.is_over());
}

#[test]
fn finished_game_ignores_time_and_arrows() {
    let mut g = game_20x20();
    g.snake = vec![(5, 5), (6, 5)];
    g.set_heading(Heading::Left);
    g.advance(MOVE_INTERVAL_US);
    assert!(g.is_over());
    let timer = g.move_timer;
    for t in [0u64, 1, 75_000, 1_000_000] {
        g.advance(t);
    }
    g.key_down(Key::Up);
    g.key_down(Key::Other);
    assert!(g.is_over());
    assert_eq!(g.snake, vec![(5, 5), (6, 5)]);
    assert_eq!(g.apple, (15, 15));
    assert_eq!(g.score, 0);
    assert_eq!(g.dir, (-1, 0));
    assert_eq!(g.move_timer, timer);
}

#[test]
fn restart_key_resets_only_after_game_over() {
    let mut g = game_20x20();
    g.set_heading(Heading::Right);
    g.key_down(Key::Restart);
    assert_eq!(g.dir, (1, 0));
    g.snake = vec![(8, 10), (9, 10), (10, 10)];
    g.dir = (-1, 0);
    g.advance(MOVE_INTERVAL_US);
    assert!(g.is_over());
    g.key_down(Key::Restart);
    assert_fresh(&g);
}

#[test]
fn arrow_keys_set_heading_while_running() {
    let mut g = game_20x20();
    g.key_down(Key::Up);
    assert_eq!(g.dir, (0, -1));
    g.key_down(Key::Down);
    assert_eq!(g.dir, (0, 1));
    g.key_down(Key::Left);
    assert_eq!(g.dir, (-1, 0));
    g.key_down(Key::Right);
    assert_eq!(g.dir, (1, 0));
    g.key_down(Key::Other);
    assert_eq!(g.dir, (1, 0));
}

#[test]
fn reset_after_play_matches_new_game() {
    let mut g = game_20x20();
    g.apple = (11, 10);
    g.set_heading(Heading::Right);
    g.advance(MOVE_INTERVAL_US);
    g.advance(MOVE_INTERVAL_US);
    g.advance(12_345);
    assert_eq!(g.score, 1);
    g.reset();
    assert_fresh(&g);
    assert_eq!(g.grid_count_x, 20);
    assert_eq!(g.grid_count_y, 20);
}

#[test]
fn length_and_score_follow_food() {
    let mut g = game_20x20();
    g.set_heading(Heading::Right);
    g.apple = (11, 10);
    g.advance(MOVE_INTERVAL_US);
    assert_eq!((g.snake.len(), g.score), (2, 1));
    g.apple = (0, 5);
    g.advance(MOVE_INTERVAL_US);
    assert_eq!((g.snake.len(), g.score), (2, 1));
    assert_eq!(g.snake, vec![(11, 10), (12, 10)]);
}

#[test]
fn step_with_places_given_food() {
    let mut g = game_20x20();
    g.apple = (11, 10);
    g.dir = (1, 0);
    g.step_with((3, 7));
    assert_eq!(g.snake, vec![(10, 10), (11, 10)]);
    assert_eq!(g.score, 1);
    assert_eq!(g.apple, (3, 7));
    g.step_with((1, 1));
    assert_eq!(g.snake, vec![(11, 10), (12, 10)]);
    assert_eq!(g.apple, (3, 7));
    assert_eq!(g.score, 1);
}

#[test]
fn cell_rect_scales_cells() {
    assert_eq!(cell_rect((3, 4), 20), (60, 80, 18));
    assert_eq!(cell_rect((0, 0), 20), (0, 0, 18));
    assert_eq!(cell_rect((19, 19), 25), (475, 475, 23));
}
