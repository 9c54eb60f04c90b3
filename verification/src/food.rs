//! Food placement: random draws of a cell until one turns up that the snake
//! does not cover, or the tries allowed are used up.

use vstd::prelude::*;
use rand::rngs::StdRng;
use rand::Rng;
use crate::board::{Board, Position};
use crate::snake::{within, Snake};

verus! {

/// The generator that draws come from, `rand::rngs::StdRng`. Nothing of its
/// state is visible here. Seeded with a fixed value it gives the same draws
/// again, which makes a placement repeatable.
#[verifier::external_type_specification]
#[verifier::external_body]
pub struct ExStdRng(rand::rngs::StdRng);

/// Raised when every draw that was allowed fell on the snake. It does not
/// mean that no cell is free: only that none was found.
#[derive(Clone, Copy, Debug, PartialEq, Eq, Structural)]
pub struct NoFoodSpace;

/// Draws a number from `0..bound`.
///
/// Trusted: this calls `rand::Rng::random_range` with the half-open range
/// `0..bound`, and the contract takes from it that the number returned lies
/// in that range. Which number of the range comes back depends on the state
/// of the generator, and nothing is said of it. The call panics on an empty
/// range, which `bound > 0` rules out.
#[verifier::external_body]
fn draw_below(rng: &mut StdRng, bound: u8) -> (n: u8)
    requires
        bound > 0,
    ensures
        n < bound,
{
    rng.random_range(0..bound)
}

/// What one draw of a row and a column comes to: the cell they name, unless
/// the snake covers it.
pub fn free_cell(snake: &Snake, row: u8, col: u8) -> (r: Option<Position>)
    ensures
        r is None <==> snake@.contains(Position { row: row as usize, col: col as usize }),
        r matches Some(cell) ==> cell.row == row && cell.col == col,
{
    let cell = Position { row: row as usize, col: col as usize };
    if snake.occupies(cell) {
        None
    } else {
        Some(cell)
    }
}

/// What a placement does after a draw.
#[derive(Clone, Copy, Debug, PartialEq, Eq, Structural)]
pub enum Placement {
    /// The cell drawn is free: the food goes there.
    Placed(Position),
    /// The cell drawn is covered and tries are left: draw again.
    Again,
    /// The cell drawn is covered and it was the last try: give up.
    GiveUp,
}

/// What a placement does after it drew `cell`, when `tries_made` draws came
/// before this one and `max_tries` are allowed in all: a free cell is taken;
/// a covered one leads to another draw, unless this was the last.
pub open spec fn judged(
    body: Seq<Position>,
    cell: Position,
    tries_made: nat,
    max_tries: nat,
) -> Placement {
    if !body.contains(cell) {
        Placement::Placed(cell)
    } else if tries_made + 1 < max_tries {
        Placement::Again
    } else {
        Placement::GiveUp
    }
}

/// What a placement comes to when the cells that it draws are `draws`, in
/// that order, and `tries_made` of them were drawn already: it goes by
/// [`judged`] from draw to draw until the food is placed or the tries are
/// used up.
pub open spec fn followed(
    body: Seq<Position>,
    draws: Seq<Position>,
    tries_made: nat,
    max_tries: nat,
) -> Result<Position, NoFoodSpace>
    decreases max_tries - tries_made,
{
    if tries_made >= max_tries || tries_made >= draws.len() {
        Err(NoFoodSpace)
    } else {
        match judged(body, draws[tries_made as int], tries_made, max_tries) {
            Placement::Placed(cell) => Ok(cell),
            Placement::Again => followed(body, draws, tries_made + 1, max_tries),
            Placement::GiveUp => Err(NoFoodSpace),
        }
    }
}

/// The food goes on the first free cell among the draws that are allowed:
/// if draw `k` is free and every draw from `tries_made` up to it fell on the
/// snake, the placement returns draw `k`.
pub proof fn lemma_first_free_draw_is_placed(
    body: Seq<Position>,
    draws: Seq<Position>,
    tries_made: nat,
    k: nat,
    max_tries: nat,
)
    requires
        tries_made <= k < max_tries <= draws.len(),
        forall|j: int| tries_made <= j < k ==> body.contains(#[trigger] draws[j]),
        !body.contains(draws[k as int]),
    ensures
        followed(body, draws, tries_made, max_tries) == Ok::<Position, NoFoodSpace>(
            draws[k as int],
        ),
    decreases k - tries_made,
{
    if tries_made < k {
        assert(body.contains(draws[tries_made as int]));
        lemma_first_free_draw_is_placed(body, draws, tries_made + 1, k, max_tries);
    }
}

/// The placement fails exactly when every draw that is allowed falls on the
/// snake: if all draws from `tries_made` up to the last one allowed are
/// covered, it fails, and if it fails, they all are.
pub proof fn lemma_fails_when_all_draws_hit(
    body: Seq<Position>,
    draws: Seq<Position>,
    tries_made: nat,
    max_tries: nat,
)
    requires
        tries_made <= max_tries <= draws.len(),
    ensures
        followed(body, draws, tries_made, max_tries) == Err::<Position, NoFoodSpace>(NoFoodSpace)
            <==> forall|j: int| tries_made <= j < max_tries ==> body.contains(#[trigger] draws[j]),
    decreases max_tries - tries_made,
{
    if tries_made < max_tries {
        lemma_fails_when_all_draws_hit(body, draws, tries_made + 1, max_tries);
    }
}

/// What the placement does after the draw of `row` and `col`, when
/// `tries_made` draws came before it: it takes the cell if the snake leaves
/// it free, and otherwise draws again unless this was the last try allowed.
pub fn judge_draw(
    snake: &Snake,
    row: u8,
    col: u8,
    tries_made: u16,
    max_tries: u16,
) -> (r: Placement)
    requires
        tries_made < max_tries,
    ensures
        r == judged(
            snake@,
            Position { row: row as usize, col: col as usize },
            tries_made as nat,
            max_tries as nat,
        ),
{
    match free_cell(snake, row, col) {
        Some(cell) => Placement::Placed(cell),
        None => {
            if tries_made + 1 < max_tries {
                Placement::Again
            } else {
                Placement::GiveUp
            }
        },
    }
}

/// A cell for the food: the first cell drawn that the snake does not cover.
///
/// Up to `max_tries` cells are drawn from `rng`, each by a row from
/// `0..height` and then a column from `0..width`. After each draw
/// [`judge_draw`] decides: the food goes on the first cell drawn that is
/// free, and the placement fails when the last try allowed falls on the
/// snake as all before it did, though free cells may be left. With no try
/// allowed it fails without a draw.
///
/// Which cells are drawn is up to the generator. Whatever it gives, the
/// result is what [`followed`] gives for some `max_tries` cells of the board,
/// and a cell that is returned lies on the board and off the snake. With a
/// snake that covers no cell of the board the first try succeeds.
pub fn place_food(snake: &Snake, board: &Board, rng: &mut StdRng, max_tries: u16) -> (r: Result<
    Position,
    NoFoodSpace,
>)
    ensures
        r matches Ok(p) ==> board@.holds(p) && !snake@.contains(p),
        max_tries == 0 ==> r is Err,
        max_tries > 0 && (forall|p: Position| board@.holds(p) ==> !snake@.contains(p)) ==> r is Ok,
        exists|draws: Seq<Position>|
            draws.len() == max_tries && within(draws, board@) && r == #[trigger] followed(
                snake@,
                draws,
                0,
                max_tries as nat,
            ),
{
    if max_tries == 0 {
        assert(followed(snake@, Seq::<Position>::empty(), 0, 0) == Err::<Position, NoFoodSpace>(
            NoFoodSpace,
        ));
        return Err(NoFoodSpace);
    }
    let height = board.height();
    let width = board.width();
    let ghost mut drawn: Seq<Position> = Seq::empty();
    let mut tries: u16 = 0;
    loop
        invariant
            tries < max_tries,
            height == board@.height,
            width == board@.width,
            height > 0,
            width > 0,
            drawn.len() == tries,
            within(drawn, board@),
            forall|j: int| 0 <= j < drawn.len() ==> snake@.contains(#[trigger] drawn[j]),
        decreases max_tries - tries,
    {
        let row = draw_below(rng, height);
        let col = draw_below(rng, width);
        let ghost cell = Position { row: row as usize, col: col as usize };
        let ghost draws = Seq::new(
            max_tries as nat,
            |j: int|
                if j < tries {
                    drawn[j]
                } else {
                    cell
                },
        );
        proof {
            assert(board@.holds(cell));
            assert(within(draws, board@));
        }
        match judge_draw(snake, row, col, tries, max_tries) {
            Placement::Placed(free) => {
                proof {
                    lemma_first_free_draw_is_placed(
                        snake@,
                        draws,
                        0,
                        tries as nat,
                        max_tries as nat,
                    );
                }
                return Ok(free);
            },
            Placement::GiveUp => {
                proof {
                    assert forall|j: int| 0 <= j < max_tries implies snake@.contains(
                        #[trigger] draws[j],
                    ) by {
                        if j < tries {
                            assert(snake@.contains(drawn[j]));
                        }
                    }
                    lemma_fails_when_all_draws_hit(snake@, draws, 0, max_tries as nat);
                }
                return Err(NoFoodSpace);
            },
            Placement::Again => {
                proof {
                    drawn = drawn.push(cell);
                }
            },
        }
        tries += 1;
    }
}

} // verus!
