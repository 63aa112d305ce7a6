use constrictor::{
    create_game, Board, DeathReason, Direction, SimulationParameterError, SimulationResult, Snake,
    SnakeSimulation, Vector2,
};

#[test]
fn construction_rejects_food_off_the_board() {
    let board = Board::new((1, 33), (1, 33));
    let snake = Snake::new(Vector2 { x: 13, y: 16 }, Direction::Right);
    let result = SnakeSimulation::new(board, snake, Vector2 { x: 0, y: 16 });
    assert_eq!(result.err(), Some(SimulationParameterError::FoodOutOfBounds));
}

#[test]
fn construction_rejects_snake_off_the_board() {
    let board = Board::new((1, 33), (1, 33));
    let snake = Snake::new(Vector2 { x: 40, y: 16 }, Direction::Right);
    let result = SnakeSimulation::new(board, snake, Vector2 { x: 19, y: 16 });
    assert_eq!(result.err(), Some(SimulationParameterError::SnakeOutOfBounds));
}

#[test]
fn construction_rejects_food_under_the_snake() {
    let board = Board::new((1, 33), (1, 33));
    let snake = Snake::new(Vector2 { x: 13, y: 16 }, Direction::Right);
    let result = SnakeSimulation::new(board, snake, Vector2 { x: 13, y: 16 });
    assert_eq!(result.err(), Some(SimulationParameterError::SnakeOverlapsFood));
}

#[test]
fn out_of_bounds_wins_over_overlap_for_an_earlier_cell() {
    // The snake's head lies outside the board while a later body cell covers
    // the food: checking runs head to tail, so the bounds error wins.
    let board = Board::new((1, 33), (1, 33));
    let mut snake = Snake::new(Vector2 { x: 32, y: 16 }, Direction::Right);
    snake.advance(true);
    let result = SnakeSimulation::new(board, snake, Vector2 { x: 32, y: 16 });
    assert_eq!(result.err(), Some(SimulationParameterError::SnakeOutOfBounds));
}

#[test]
fn error_messages_name_the_violation() {
    assert_eq!(
        SimulationParameterError::SnakeOutOfBounds.message(),
        "snake covers out-of-bounds positions"
    );
    assert_eq!(
        SimulationParameterError::FoodOutOfBounds.message(),
        "given food position outside the bounds of board"
    );
    assert_eq!(
        SimulationParameterError::SnakeOverlapsFood.message(),
        "given food position covered by snake"
    );
}

#[test]
fn plain_step_moves_the_head() {
    let board = Board::new((1, 33), (1, 33));
    let snake = Snake::new(Vector2 { x: 13, y: 16 }, Direction::Right);
    let mut sim = SnakeSimulation::new(board, snake, Vector2 { x: 19, y: 16 }).unwrap();
    assert!(sim.result().is_none());
    assert_eq!(sim.advance(), None);
    assert_eq!(sim.snake().head(), &Vector2 { x: 14, y: 16 });
    assert_eq!(sim.snake().len(), 1);
    assert!(sim.result().is_none());
}

#[test]
fn hitting_the_wall_dies_and_latches() {
    let board = Board::new((1, 33), (1, 33));
    let snake = Snake::new(Vector2 { x: 1, y: 16 }, Direction::Left);
    let mut sim = SnakeSimulation::new(board, snake, Vector2 { x: 19, y: 16 }).unwrap();
    assert_eq!(sim.advance(), Some(&SimulationResult::Died(DeathReason::HitWall)));
    // A second call is a no-op that returns the same result.
    assert_eq!(sim.advance(), Some(&SimulationResult::Died(DeathReason::HitWall)));
    assert_eq!(sim.snake().head(), &Vector2 { x: 1, y: 16 });
    assert_eq!(sim.snake().len(), 1);
    assert_eq!(sim.food_position(), &Vector2 { x: 19, y: 16 });
    assert_eq!(sim.result(), Some(&SimulationResult::Died(DeathReason::HitWall)));
}

/// Builds a snake of length 4 whose body forms three sides of a square, with
/// the head one step away from the tail cell.
fn square_snake() -> Snake {
    let mut snake = Snake::new(Vector2 { x: 1, y: 1 }, Direction::Right);
    snake.advance(true);
    assert!(snake.try_set_facing(Direction::Up));
    snake.advance(true);
    assert!(snake.try_set_facing(Direction::Left));
    snake.advance(true);
    assert_eq!(snake.head(), &Vector2 { x: 1, y: 2 });
    assert_eq!(snake.tail(), &Vector2 { x: 1, y: 1 });
    snake
}

#[test]
fn following_the_vacating_tail_is_safe() {
    let board = Board::new((1, 4), (1, 4));
    let mut snake = square_snake();
    assert!(snake.try_set_facing(Direction::Down));
    let mut sim = SnakeSimulation::new(board, snake, Vector2 { x: 3, y: 3 }).unwrap();
    // The head lands exactly on the tail cell, which the tail vacates in the
    // same tick: no collision.
    assert_eq!(sim.advance(), None);
    assert_eq!(sim.snake().head(), &Vector2 { x: 1, y: 1 });
    assert_eq!(sim.snake().len(), 4);
    assert!(sim.result().is_none());
}

#[test]
fn running_into_the_body_dies() {
    let board = Board::new((1, 8), (1, 8));
    let mut snake = Snake::new(Vector2 { x: 1, y: 1 }, Direction::Right);
    snake.advance(true);
    snake.advance(true);
    snake.advance(true);
    assert!(snake.try_set_facing(Direction::Up));
    snake.advance(true);
    assert!(snake.try_set_facing(Direction::Left));
    snake.advance(true);
    // The body now hooks over itself; heading down lands on a mid-body cell.
    let mut sim = SnakeSimulation::new(board, snake, Vector2 { x: 6, y: 6 }).unwrap();
    sim.change_player_move_direction(Direction::Down);
    assert_eq!(sim.advance(), Some(&SimulationResult::Died(DeathReason::HitSelf)));
    assert_eq!(sim.result(), Some(&SimulationResult::Died(DeathReason::HitSelf)));
}

#[test]
fn eating_grows_and_respawns_food_on_the_only_free_cell() {
    let board = Board::new((1, 4), (1, 2));
    let snake = Snake::new(Vector2 { x: 1, y: 1 }, Direction::Right);
    let mut sim = SnakeSimulation::new(board, snake, Vector2 { x: 2, y: 1 }).unwrap();
    assert_eq!(sim.advance(), None);
    assert_eq!(sim.snake().len(), 2);
    assert_eq!(sim.snake().head(), &Vector2 { x: 2, y: 1 });
    // Only one cell is free, so the "random" respawn is forced onto it.
    assert_eq!(sim.food_position(), &Vector2 { x: 3, y: 1 });
    assert!(sim.result().is_none());
}

#[test]
fn consuming_the_last_food_on_a_full_board_wins() {
    let board = Board::new((1, 6), (1, 2));
    let mut snake = Snake::new(Vector2 { x: 1, y: 1 }, Direction::Right);
    snake.advance(true);
    snake.advance(true);
    snake.advance(true);
    let mut sim = SnakeSimulation::new(board, snake, Vector2 { x: 5, y: 1 }).unwrap();
    assert_eq!(sim.advance(), Some(&SimulationResult::Won));
    assert_eq!(sim.snake().len(), 5);
    assert_eq!(sim.result(), Some(&SimulationResult::Won));
}

#[test]
fn quit_terminates_a_running_game() {
    let board = Board::new((1, 33), (1, 33));
    let snake = Snake::new(Vector2 { x: 13, y: 16 }, Direction::Right);
    let mut sim = SnakeSimulation::new(board, snake, Vector2 { x: 19, y: 16 }).unwrap();
    sim.quit();
    assert_eq!(sim.result(), Some(&SimulationResult::ManuallyTerminated));
    // Quitting again (or advancing) changes nothing.
    sim.quit();
    assert_eq!(sim.advance(), Some(&SimulationResult::ManuallyTerminated));
}

#[test]
fn quit_does_not_override_a_death_from_the_same_tick() {
    let board = Board::new((1, 33), (1, 33));
    let snake = Snake::new(Vector2 { x: 1, y: 16 }, Direction::Left);
    let mut sim = SnakeSimulation::new(board, snake, Vector2 { x: 19, y: 16 }).unwrap();
    assert_eq!(sim.advance(), Some(&SimulationResult::Died(DeathReason::HitWall)));
    sim.quit();
    assert_eq!(sim.result(), Some(&SimulationResult::Died(DeathReason::HitWall)));
}

#[test]
fn direction_changes_are_staged_through_the_snake() {
    let board = Board::new((1, 33), (1, 33));
    let snake = Snake::new(Vector2 { x: 13, y: 16 }, Direction::Right);
    let mut sim = SnakeSimulation::new(board, snake, Vector2 { x: 19, y: 16 }).unwrap();
    // A reversal is dropped silently.
    sim.change_player_move_direction(Direction::Left);
    assert_eq!(sim.snake().facing(), Direction::Right);
    // The last staged change before the tick wins.
    sim.change_player_move_direction(Direction::Up);
    sim.change_player_move_direction(Direction::Down);
    assert_eq!(sim.snake().facing(), Direction::Down);
    assert_eq!(sim.advance(), None);
    assert_eq!(sim.snake().head(), &Vector2 { x: 13, y: 15 });
}

#[test]
fn create_game_centres_snake_and_food() {
    let sim = create_game(32, 32).unwrap();
    assert_eq!(sim.board().x_range(), 1..33);
    assert_eq!(sim.board().y_range(), 1..33);
    assert_eq!(sim.snake().head(), &Vector2 { x: 13, y: 16 });
    assert_eq!(sim.snake().facing(), Direction::Right);
    assert_eq!(sim.food_position(), &Vector2 { x: 19, y: 16 });
    assert!(sim.result().is_none());
}

#[test]
fn create_game_rejects_a_board_too_small_for_the_food() {
    assert_eq!(create_game(4, 4).err(), Some(SimulationParameterError::FoodOutOfBounds));
}
