//! The engine: one tick of the game, from the state before it to the state
//! after it and the outcome reported to the caller.

use vstd::prelude::*;
use rand::rngs::StdRng;
use crate::board::{Board, BoardView, Position};
use crate::direction::{heading, Direction};
use crate::food::place_food;
use crate::snake::{
    lemma_move_keeps_shape, move_report, move_result, move_snake, moved, within, MoveError, Snake,
};

verus! {

/// Where a game stands between two ticks.
#[derive(Clone, Copy, Debug, PartialEq, Eq, Structural)]
pub enum GameState {
    /// The next tick will move the snake.
    Running,
    /// The snake left the grid or ran into itself; the game is over.
    Lost(MoveError),
    /// No cell was found for new food; the game is over and counts as won.
    NoMoreFood,
}

/// What a tick reports.
#[derive(Clone, Copy, Debug, PartialEq, Eq, Structural)]
pub enum GameOutcome {
    /// The snake moved and the game goes on.
    Continue,
    /// The snake moved onto the food, grew, and new food was placed.
    AteFood,
    /// The snake would have left the grid. The game is lost.
    OutOfBounds,
    /// The snake would have run into itself. The game is lost.
    SelfCollision,
    /// The snake ate, and no cell was found for new food. The game is over.
    NoFoodSpace,
}

/// The mathematical content of a [`Game`].
pub struct GameView {
    pub board: BoardView,
    pub body: Seq<Position>,
    pub food: Option<Position>,
    pub max_tries: nat,
    pub state: GameState,
}

impl GameView {
    /// What holds of a game from its making through every tick: the snake
    /// has a head, covers no cell twice and lies on the board; the food lies
    /// on the board and off the snake; and there is food unless the game
    /// ended for want of a cell to put it on.
    pub open spec fn consistent(self) -> bool {
        &&& self.body.len() >= 1
        &&& self.body.no_duplicates()
        &&& within(self.body, self.board)
        &&& self.food matches Some(f) ==> self.board.holds(f) && !self.body.contains(f)
        &&& self.food is None <==> self.state is NoMoreFood
    }
}

/// The state that a game starts in: running, with what it was given.
pub open spec fn opening(
    board: BoardView,
    body: Seq<Position>,
    food: Position,
    max_tries: nat,
) -> GameView {
    GameView { board, body, food: Some(food), max_tries, state: GameState::Running }
}

/// The outcome that reports a refused move.
pub open spec fn outcome_of_error(e: MoveError) -> GameOutcome {
    match e {
        MoveError::OutOfBounds => GameOutcome::OutOfBounds,
        MoveError::SelfCollision => GameOutcome::SelfCollision,
    }
}

/// Whether a tick with the direction read as `snapshot` may lead from
/// `before` to `after` and report `outcome`.
///
/// A game that is over stays as it is and reports again how it ended. A
/// running game travels in [`heading`]`(snapshot)`:
/// - if the move is refused, nothing moves, the game is lost for that
///   reason, and the outcome names it;
/// - if the head reaches a cell without food, the snake moves on, the food
///   stays, and the outcome is `Continue`;
/// - if the head reaches the food, the snake grows, and either new food
///   lies on a cell of the board that the grown snake does not cover, with
///   outcome `AteFood`, or there is no food any more and the game is over
///   with outcome `NoFoodSpace`. Which of the two, and which cell, is up to
///   the random draws; with no try allowed it is always the second.
///
/// Board and number of tries never change.
pub open spec fn tick(
    before: GameView,
    snapshot: Option<Direction>,
    after: GameView,
    outcome: GameOutcome,
) -> bool {
    &&& after.board == before.board
    &&& after.max_tries == before.max_tries
    &&& match before.state {
        GameState::Lost(e) => after == before && outcome == outcome_of_error(e),
        GameState::NoMoreFood => after == before && outcome == GameOutcome::NoFoodSpace,
        GameState::Running => {
            &&& after.body == moved(before.body, heading(snapshot), before.board, before.food)
            &&& match move_report(before.body, heading(snapshot), before.board, before.food) {
                Err(e) => {
                    &&& after.food == before.food
                    &&& after.state == GameState::Lost(e)
                    &&& outcome == outcome_of_error(e)
                },
                Ok(false) => {
                    &&& after.food == before.food
                    &&& after.state == GameState::Running
                    &&& outcome == GameOutcome::Continue
                },
                Ok(true) => match after.food {
                    Some(f) => {
                        &&& before.max_tries > 0
                        &&& before.board.holds(f)
                        &&& !after.body.contains(f)
                        &&& after.state == GameState::Running
                        &&& outcome == GameOutcome::AteFood
                    },
                    None => {
                        &&& after.state == GameState::NoMoreFood
                        &&& outcome == GameOutcome::NoFoodSpace
                    },
                },
            }
        },
    }
}

/// A tick leads from a consistent state to a consistent state.
pub proof fn lemma_tick_keeps_consistent(
    before: GameView,
    snapshot: Option<Direction>,
    after: GameView,
    outcome: GameOutcome,
)
    requires
        before.consistent(),
        tick(before, snapshot, after, outcome),
    ensures
        after.consistent(),
{
    if before.state == GameState::Running {
        let d = heading(snapshot);
        lemma_move_keeps_shape(before.body, d, before.board, before.food);
        if let Ok(new_head) = move_result(before.body, d, before.board) {
            if let Some(f) = before.food {
                if f != new_head && after.body.contains(f) {
                    let k = choose|k: int| 0 <= k < after.body.len() && after.body[k] == f;
                    assert(after.body[k] == before.body[k - 1]);
                    assert(before.body.contains(f));
                }
            }
        }
    }
}

/// Computes [`outcome_of_error`].
fn outcome_for(e: MoveError) -> (outcome: GameOutcome)
    ensures
        outcome == outcome_of_error(e),
{
    match e {
        MoveError::OutOfBounds => GameOutcome::OutOfBounds,
        MoveError::SelfCollision => GameOutcome::SelfCollision,
    }
}

/// A game: the board, the snake on it, the food, the number of draws that a
/// food placement may take, and whether the game is still running.
///
/// A game made by [`Game::new`] is [consistent](GameView::consistent), and a
/// consistent game stays so through every tick. The fields are open to the
/// caller; [`Game::is_consistent`] tells whether a game that was changed
/// from outside still is.
#[derive(Debug)]
pub struct Game {
    pub board: Board,
    pub snake: Snake,
    pub food: Option<Position>,
    pub max_tries: u16,
    pub state: GameState,
}

impl View for Game {
    type V = GameView;

    open spec fn view(&self) -> GameView {
        GameView {
            board: self.board@,
            body: self.snake@,
            food: self.food,
            max_tries: self.max_tries as nat,
            state: self.state,
        }
    }
}

impl Game {
    /// A running game with the given board, snake and food. It is made
    /// exactly when they are consistent: the snake covers no cell twice and
    /// lies on the board, and the food lies on the board and off the snake.
    pub fn new(board: Board, snake: Snake, food: Position, max_tries: u16) -> (r: Option<Game>)
        ensures
            r is Some <==> opening(board@, snake@, food, max_tries as nat).consistent(),
            r matches Some(game) ==> game@ == opening(board@, snake@, food, max_tries as nat),
            r matches Some(game) ==> game.board == board && game.snake == snake,
    {
        let game = Game { board, snake, food: Some(food), max_tries, state: GameState::Running };
        if game.is_consistent() {
            Some(game)
        } else {
            None
        }
    }

    /// Whether the state is [`GameView::consistent`].
    pub fn is_consistent(&self) -> (b: bool)
        ensures
            b == self@.consistent(),
    {
        if self.snake.len() == 0 || !self.snake.is_distinct() || !self.snake.fits(&self.board) {
            return false;
        }
        let out_of_food = match self.state {
            GameState::NoMoreFood => true,
            _ => false,
        };
        match self.food {
            Some(f) => {
                !out_of_food && self.board.in_bounds(f.row, f.col) && !self.snake.occupies(f)
            },
            None => out_of_food,
        }
    }

    /// One tick. `snapshot` is the direction that the player chose, as far as
    /// it could be read; `rng` gives the draws for new food, should the snake
    /// eat. What the tick does is laid down in [`tick`]; a consistent state
    /// stays consistent.
    pub fn step(&mut self, snapshot: Option<Direction>, rng: &mut StdRng) -> (outcome: GameOutcome)
        requires
            old(self).snake.wf(),
        ensures
            tick(old(self)@, snapshot, final(self)@, outcome),
            final(self).snake.wf(),
            final(self).snake.body_symbol() == old(self).snake.body_symbol(),
            final(self).snake.head_symbol() == old(self).snake.head_symbol(),
            old(self)@.consistent() ==> final(self)@.consistent(),
    {
        match self.state {
            GameState::Lost(e) => {
                return outcome_for(e);
            },
            GameState::NoMoreFood => {
                return GameOutcome::NoFoodSpace;
            },
            GameState::Running => {},
        }
        let outcome = match move_snake(&mut self.snake, snapshot, &self.board, self.food) {
            Err(e) => {
                self.state = GameState::Lost(e);
                outcome_for(e)
            },
            Ok(false) => GameOutcome::Continue,
            Ok(true) => match place_food(&self.snake, &self.board, rng, self.max_tries) {
                Ok(cell) => {
                    self.food = Some(cell);
                    GameOutcome::AteFood
                },
                Err(_) => {
                    self.food = None;
                    self.state = GameState::NoMoreFood;
                    GameOutcome::NoFoodSpace
                },
            },
        };
        proof {
            if old(self)@.consistent() {
                lemma_tick_keeps_consistent(old(self)@, snapshot, self@, outcome);
            }
        }
        outcome
    }
}

} // verus!
