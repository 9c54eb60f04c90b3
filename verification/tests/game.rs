use rand::rngs::StdRng;
use rand::SeedableRng;
use snake_game::board::{Board, Position};
use snake_game::direction::Direction;
use snake_game::game::{Game, GameOutcome, GameState};
use snake_game::snake::{MoveError, Snake};

fn at(row: usize, col: usize) -> Position {
    Position { row, col }
}

fn snake_of(cells: &[(usize, usize)]) -> Snake {
    let segments: Vec<Position> = cells.iter().map(|&(row, col)| at(row, col)).collect();
    Snake::new('*', '@', segments).unwrap()
}

fn game_of(width: u8, height: u8, cells: &[(usize, usize)], food: Position) -> Game {
    let board = Board::new(width, height, ' ').unwrap();
    Game::new(board, snake_of(cells), food, 100).expect("a consistent game")
}

fn unchecked_game(cells: &[(usize, usize)], food: Option<Position>, state: GameState) -> Game {
    let board = Board::new(5, 5, ' ').unwrap();
    Game { board, snake: snake_of(cells), food, max_tries: 100, state }
}

#[test]
fn a_tick_without_food_ahead_moves_on() {
    let mut game = game_of(5, 5, &[(2, 2)], at(4, 4));
    let mut rng = StdRng::seed_from_u64(1);
    assert_eq!(game.step(Some(Direction::Right), &mut rng), GameOutcome::Continue);
    assert_eq!(game.snake.head(), at(2, 3));
    assert_eq!(game.snake.len(), 1);
    assert_eq!(game.snake.segments(), vec![at(2, 3)]);
    assert_eq!(game.food, Some(at(4, 4)));
    assert_eq!(game.state, GameState::Running);
}

#[test]
fn a_tick_without_any_food_moves_on() {
    let mut game = unchecked_game(&[(2, 2)], None, GameState::Running);
    let mut rng = StdRng::seed_from_u64(1);
    assert_eq!(game.step(Some(Direction::Right), &mut rng), GameOutcome::Continue);
    assert_eq!(game.snake.segments(), vec![at(2, 3)]);
    assert_eq!(game.food, None);
    assert_eq!(game.state, GameState::Running);
}

#[test]
fn a_tick_off_the_grid_loses_the_game() {
    let mut game = game_of(5, 5, &[(0, 0)], at(3, 3));
    let mut rng = StdRng::seed_from_u64(1);
    assert_eq!(game.step(Some(Direction::Up), &mut rng), GameOutcome::OutOfBounds);
    assert_eq!(game.state, GameState::Lost(MoveError::OutOfBounds));
    assert_eq!(game.snake.segments(), vec![at(0, 0)]);
    assert_eq!(game.food, Some(at(3, 3)));
}

#[test]
fn a_tick_into_the_body_loses_the_game() {
    let mut game = game_of(5, 5, &[(1, 1), (2, 1), (2, 0), (1, 0), (0, 0)], at(3, 3));
    let mut rng = StdRng::seed_from_u64(1);
    assert_eq!(game.step(Some(Direction::Left), &mut rng), GameOutcome::SelfCollision);
    assert_eq!(game.state, GameState::Lost(MoveError::SelfCollision));
    assert_eq!(game.snake.len(), 5);
    assert_eq!(game.snake.head(), at(1, 1));
}

#[test]
fn a_tick_onto_the_food_grows_the_snake_and_places_new_food() {
    for seed in 0..100u64 {
        let mut game = game_of(5, 5, &[(1, 1), (1, 0), (0, 0)], at(1, 2));
        let mut rng = StdRng::seed_from_u64(seed);
        assert_eq!(game.step(Some(Direction::Right), &mut rng), GameOutcome::AteFood);
        assert_eq!(game.snake.head(), at(1, 2));
        assert_eq!(game.snake.len(), 4);
        assert_eq!(game.snake.segments(), vec![at(1, 2), at(1, 1), at(1, 0), at(0, 0)]);
        assert_eq!(game.state, GameState::Running);
        let food = game.food.expect("new food");
        assert!(game.board.in_bounds(food.row, food.col));
        for segment in game.snake.segments() {
            assert_ne!(food, segment);
        }
        assert!(game.is_consistent());
    }
}

#[test]
fn eating_the_last_free_cell_ends_the_game_for_want_of_space() {
    let mut game = game_of(2, 1, &[(0, 0)], at(0, 1));
    let mut rng = StdRng::seed_from_u64(9);
    assert_eq!(game.step(Some(Direction::Right), &mut rng), GameOutcome::NoFoodSpace);
    assert_eq!(game.state, GameState::NoMoreFood);
    assert_eq!(game.food, None);
    assert_eq!(game.snake.segments(), vec![at(0, 1), at(0, 0)]);
    assert!(game.is_consistent());
}

#[test]
fn eating_with_no_try_allowed_ends_the_game() {
    let board = Board::new(5, 5, ' ').unwrap();
    let mut game = Game::new(board, snake_of(&[(2, 2)]), at(2, 3), 0).unwrap();
    let mut rng = StdRng::seed_from_u64(9);
    assert_eq!(game.step(Some(Direction::Right), &mut rng), GameOutcome::NoFoodSpace);
    assert_eq!(game.state, GameState::NoMoreFood);
    assert_eq!(game.food, None);
    assert_eq!(game.snake.len(), 2);
}

#[test]
fn a_lost_game_stays_lost() {
    let mut game = game_of(5, 5, &[(0, 0)], at(3, 3));
    let mut rng = StdRng::seed_from_u64(1);
    assert_eq!(game.step(Some(Direction::Left), &mut rng), GameOutcome::OutOfBounds);
    assert_eq!(game.step(Some(Direction::Right), &mut rng), GameOutcome::OutOfBounds);
    assert_eq!(game.step(None, &mut rng), GameOutcome::OutOfBounds);
    assert_eq!(game.snake.segments(), vec![at(0, 0)]);
    assert_eq!(game.food, Some(at(3, 3)));
    assert_eq!(game.state, GameState::Lost(MoveError::OutOfBounds));
}

#[test]
fn a_game_lost_by_collision_reports_the_collision_again() {
    let mut game = game_of(5, 5, &[(0, 0), (0, 1)], at(4, 4));
    let mut rng = StdRng::seed_from_u64(1);
    assert_eq!(game.step(Some(Direction::Right), &mut rng), GameOutcome::SelfCollision);
    assert_eq!(game.step(Some(Direction::Down), &mut rng), GameOutcome::SelfCollision);
    assert_eq!(game.snake.segments(), vec![at(0, 0), at(0, 1)]);
}

#[test]
fn a_game_without_space_stays_over() {
    let mut game = game_of(2, 1, &[(0, 0)], at(0, 1));
    let mut rng = StdRng::seed_from_u64(9);
    assert_eq!(game.step(Some(Direction::Right), &mut rng), GameOutcome::NoFoodSpace);
    assert_eq!(game.step(Some(Direction::Left), &mut rng), GameOutcome::NoFoodSpace);
    assert_eq!(game.snake.segments(), vec![at(0, 1), at(0, 0)]);
    assert_eq!(game.state, GameState::NoMoreFood);
}

#[test]
fn a_tick_without_a_direction_goes_down() {
    let mut game = game_of(5, 5, &[(2, 2)], at(0, 0));
    let mut rng = StdRng::seed_from_u64(1);
    assert_eq!(game.step(None, &mut rng), GameOutcome::Continue);
    assert_eq!(game.snake.head(), at(3, 2));
}

#[test]
fn new_game_is_running_with_what_it_was_given() {
    let game = game_of(17, 17, &[(2, 3), (2, 2)], at(9, 9));
    assert_eq!(game.state, GameState::Running);
    assert_eq!(game.board.width(), 17);
    assert_eq!(game.board.height(), 17);
    assert_eq!(game.snake.segments(), vec![at(2, 3), at(2, 2)]);
    assert_eq!(game.food, Some(at(9, 9)));
    assert_eq!(game.max_tries, 100);
    assert!(game.is_consistent());
}

#[test]
fn new_game_refuses_food_on_the_snake() {
    let board = Board::new(5, 5, ' ').unwrap();
    assert!(Game::new(board, snake_of(&[(1, 1), (1, 0)]), at(1, 1), 100).is_none());
    assert!(Game::new(board, snake_of(&[(1, 1), (1, 0)]), at(1, 0), 100).is_none());
}

#[test]
fn new_game_refuses_food_off_the_board() {
    let board = Board::new(5, 5, ' ').unwrap();
    assert!(Game::new(board, snake_of(&[(1, 1), (1, 0)]), at(0, 5), 100).is_none());
    assert!(Game::new(board, snake_of(&[(1, 1), (1, 0)]), at(5, 0), 100).is_none());
}

#[test]
fn new_game_refuses_a_snake_off_the_board() {
    let board = Board::new(5, 5, ' ').unwrap();
    assert!(Game::new(board, snake_of(&[(4, 4), (5, 4)]), at(0, 0), 100).is_none());
}

#[test]
fn new_game_refuses_a_snake_that_covers_a_cell_twice() {
    let board = Board::new(5, 5, ' ').unwrap();
    let mut snake = snake_of(&[(1, 1), (1, 0)]);
    snake.advance(at(1, 0), true);
    assert!(Game::new(board, snake, at(0, 0), 100).is_none());
}

#[test]
fn is_consistent_accepts_a_sound_state() {
    assert!(unchecked_game(&[(1, 1), (1, 0)], Some(at(4, 4)), GameState::Running).is_consistent());
    assert!(unchecked_game(&[(1, 1), (1, 0)], None, GameState::NoMoreFood).is_consistent());
    let lost = GameState::Lost(MoveError::OutOfBounds);
    assert!(unchecked_game(&[(1, 1), (1, 0)], Some(at(4, 4)), lost).is_consistent());
}

#[test]
fn is_consistent_refuses_a_running_game_without_food() {
    assert!(!unchecked_game(&[(1, 1), (1, 0)], None, GameState::Running).is_consistent());
}

#[test]
fn is_consistent_refuses_food_after_the_game_ran_out_of_it() {
    let game = unchecked_game(&[(1, 1), (1, 0)], Some(at(4, 4)), GameState::NoMoreFood);
    assert!(!game.is_consistent());
}

#[test]
fn is_consistent_refuses_food_on_the_snake() {
    assert!(!unchecked_game(&[(1, 1), (1, 0)], Some(at(1, 0)), GameState::Running).is_consistent());
}

#[test]
fn is_consistent_refuses_food_off_the_board() {
    assert!(!unchecked_game(&[(1, 1), (1, 0)], Some(at(5, 0)), GameState::Running).is_consistent());
}

#[test]
fn is_consistent_refuses_a_snake_off_the_board() {
    assert!(!unchecked_game(&[(1, 5), (1, 4)], Some(at(0, 0)), GameState::Running).is_consistent());
}

#[test]
fn is_consistent_refuses_a_snake_that_covers_a_cell_twice() {
    let mut game = game_of(5, 5, &[(1, 1), (1, 0)], at(4, 4));
    game.snake.advance(at(1, 0), true);
    assert!(!game.is_consistent());
}

#[test]
fn a_tick_moves_an_inconsistent_game_all_the_same() {
    let mut rng = StdRng::seed_from_u64(1);
    let mut game = unchecked_game(&[(1, 5), (1, 4)], Some(at(9, 9)), GameState::Running);
    assert_eq!(game.step(Some(Direction::Left), &mut rng), GameOutcome::SelfCollision);
    assert_eq!(game.step(Some(Direction::Up), &mut rng), GameOutcome::SelfCollision);
    let mut game = unchecked_game(&[(1, 5), (1, 4)], Some(at(9, 9)), GameState::Running);
    assert_eq!(game.step(Some(Direction::Up), &mut rng), GameOutcome::OutOfBounds);
}

#[test]
fn a_long_run_stays_consistent() {
    let mut rng = StdRng::seed_from_u64(77);
    let mut game = game_of(6, 6, &[(2, 3), (2, 2), (1, 2)], at(2, 4));
    let turns = [Direction::Right, Direction::Down, Direction::Left, Direction::Up];
    let mut ticks = 0usize;
    loop {
        let outcome = game.step(Some(turns[(ticks / 2) % 4]), &mut rng);
        assert!(game.is_consistent());
        ticks += 1;
        match outcome {
            GameOutcome::Continue | GameOutcome::AteFood => {
                assert_eq!(game.state, GameState::Running);
                assert!(game.food.is_some());
            }
            _ => break,
        }
        if ticks > 10_000 {
            break;
        }
    }
    assert!(ticks > 1);
}
