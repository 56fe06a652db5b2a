use snake_game::{Direction, GameStatus, Snake, SnakeCell, World};

fn cells(w: &World) -> Vec<usize> {
    w.snake_cells().iter().map(|c| c.0).collect()
}

/// Offers every cell in turn and returns the one that was taken.
fn place_first_free(w: &mut World) -> usize {
    for c in 0..w.get_width() * w.get_width() {
        if w.place_reward_cell(c) {
            return c;
        }
    }
    panic!("no free cell");
}

#[test]
fn new_world_spawns_three_segments_heading_down() {
    let mut w = World::new(8, 10);
    assert_eq!(w.get_width(), 8);
    assert_eq!(cells(&w), vec![10, 9, 8]);
    assert_eq!(w.snake_head_index(), 10);
    assert_eq!(w.snake_length(), 3);
    assert_eq!(w.get_game_status(), None);
    assert_eq!(w.reward_cell(), None);
    assert!(w.needs_reward_cell());
    assert!(w.place_reward_cell(63));
    w.update_snake();
    assert_eq!(w.snake_head_index(), 18);
    assert_eq!(cells(&w), vec![18, 10, 9]);
}

#[test]
fn snake_new_builds_requested_length() {
    let _s = Snake::new(5, 6);
    let _t = Snake::new(0, 0);
}

#[test]
fn try_new_rejects_bad_inputs() {
    assert!(World::try_new(8, 1).is_none());
    assert!(World::try_new(8, 0).is_none());
    assert!(World::try_new(8, 64).is_none());
    assert!(World::try_new(usize::MAX, 10).is_none());
    let w = World::try_new(8, 2).unwrap();
    assert_eq!(cells(&w), vec![2, 1, 0]);
}

#[test]
fn reward_cell_is_placed_only_on_a_free_cell() {
    let mut w = World::new(8, 10);
    assert!(!w.place_reward_cell(10));
    assert!(!w.place_reward_cell(9));
    assert!(!w.place_reward_cell(8));
    assert!(!w.place_reward_cell(64));
    assert!(w.needs_reward_cell());
    assert!(w.place_reward_cell(11));
    assert_eq!(w.reward_cell(), Some(11));
    assert!(!w.needs_reward_cell());
    assert!(!w.place_reward_cell(12));
    assert_eq!(w.reward_cell(), Some(11));
}

#[test]
fn left_from_first_column_wraps_within_the_row() {
    let mut w = World::new(8, 16);
    assert!(w.place_reward_cell(0));
    w.change_snake_direction(Direction::LEFT);
    w.update_snake();
    assert_eq!(cells(&w), vec![23, 16, 15]);
}

#[test]
fn reversal_is_ignored() {
    let mut w = World::new(8, 10);
    assert!(w.place_reward_cell(63));
    w.change_snake_direction(Direction::LEFT);
    w.update_snake();
    assert_eq!(cells(&w), vec![18, 10, 9]);
    w.change_snake_direction(Direction::UP);
    w.update_snake();
    assert_eq!(cells(&w), vec![26, 18, 10]);
}

#[test]
fn accepted_turn_is_used_on_next_tick() {
    let mut w = World::new(8, 10);
    assert!(w.place_reward_cell(63));
    w.change_snake_direction(Direction::RIGHT);
    w.update_snake();
    assert_eq!(cells(&w), vec![11, 10, 9]);
    w.update_snake();
    assert_eq!(cells(&w), vec![12, 11, 10]);
    w.change_snake_direction(Direction::UP);
    w.update_snake();
    assert_eq!(cells(&w), vec![4, 12, 11]);
}

#[test]
fn eating_grows_the_snake_and_asks_for_a_new_reward() {
    let mut w = World::new(8, 10);
    assert!(w.place_reward_cell(18));
    w.start_game();
    w.update_snake();
    assert_eq!(cells(&w), vec![18, 10, 9, 10]);
    assert_eq!(w.reward_cell(), None);
    assert!(w.needs_reward_cell());
    assert!(!w.place_reward_cell(18));
    assert!(w.place_reward_cell(26));
    w.update_snake();
    assert_eq!(cells(&w), vec![26, 18, 10, 9, 18]);
    assert_eq!(w.get_game_status(), Some(GameStatus::PLAYED));
}

#[test]
fn length_never_decreases() {
    let mut w = World::new(4, 5);
    place_first_free(&mut w);
    w.start_game();
    let turns = [Direction::RIGHT, Direction::DOWN, Direction::LEFT, Direction::UP];
    let mut len = w.snake_length();
    for t in 0..40usize {
        w.change_snake_direction(turns[t % 4]);
        w.update_snake();
        assert!(w.snake_length() >= len);
        len = w.snake_length();
        if w.needs_reward_cell() {
            place_first_free(&mut w);
        }
        if let Some(r) = w.reward_cell() {
            assert!(!cells(&w).contains(&r));
        }
    }
}

#[test]
fn filling_the_grid_wins() {
    let mut w = World::new(2, 3);
    assert_eq!(cells(&w), vec![3, 2, 1]);
    assert!(w.place_reward_cell(0));
    w.start_game();
    w.update_snake();
    assert_eq!(cells(&w), vec![1, 3, 2]);
    w.change_snake_direction(Direction::LEFT);
    w.update_snake();
    assert_eq!(cells(&w), vec![0, 1, 3, 1]);
    assert_eq!(w.snake_length(), 4);
    assert!(!w.place_reward_cell(1));
    assert!(w.place_reward_cell(2));
    w.change_snake_direction(Direction::DOWN);
    w.update_snake();
    assert_eq!(cells(&w), vec![2, 0, 1, 3]);
    assert_eq!(w.reward_cell(), None);
    assert!(!w.needs_reward_cell());
    assert_eq!(w.get_game_status(), Some(GameStatus::WON));
    assert_eq!(w.get_game_status_info(), "Won!");
    w.start_game();
    assert_eq!(w.get_game_status(), Some(GameStatus::WON));
}

fn grown_on_two_by_two() -> World {
    let mut w = World::new(2, 2);
    assert!(w.place_reward_cell(3));
    w.change_snake_direction(Direction::RIGHT);
    w
}

#[test]
fn head_on_body_loses() {
    let mut w = grown_on_two_by_two();
    w.start_game();
    w.update_snake();
    assert_eq!(cells(&w), vec![3, 2, 1, 2]);
    assert!(w.place_reward_cell(0));
    w.change_snake_direction(Direction::UP);
    w.update_snake();
    assert_eq!(cells(&w), vec![1, 3, 2, 1]);
    assert_eq!(w.get_game_status(), Some(GameStatus::LOSE));
    assert_eq!(w.get_game_status_info(), "You're Lose!");
    w.start_game();
    assert_eq!(w.get_game_status(), Some(GameStatus::LOSE));
    w.update_snake();
    assert_eq!(w.get_game_status(), Some(GameStatus::LOSE));
}

#[test]
fn collision_before_start_leaves_status_unset() {
    let mut w = grown_on_two_by_two();
    w.update_snake();
    assert!(w.place_reward_cell(0));
    w.change_snake_direction(Direction::UP);
    w.update_snake();
    assert_eq!(cells(&w), vec![1, 3, 2, 1]);
    assert_eq!(w.get_game_status(), None);
    assert_eq!(w.get_game_status_info(), "None!");
}

#[test]
fn start_game_sets_played() {
    let mut w = World::new(8, 10);
    assert_eq!(w.get_game_status_info(), "None!");
    w.start_game();
    assert_eq!(w.get_game_status(), Some(GameStatus::PLAYED));
    assert_eq!(w.get_game_status_info(), "You're playing!");
    w.start_game();
    assert_eq!(w.get_game_status(), Some(GameStatus::PLAYED));
}

#[test]
fn snake_cell_equality_is_by_index() {
    assert_eq!(SnakeCell(4), SnakeCell(4));
    assert_ne!(SnakeCell(4), SnakeCell(5));
}
