//! The painter: what each cell of the grid shows for a given board, snake
//! and food.

use vstd::prelude::*;
use crate::board::{lemma_index_in_area, lemma_index_injective, Board, BoardView, Position};
use crate::snake::{within, Snake};

verus! {

/// The symbol of the cell that holds the food.
pub const FOOD_SYMBOL: char = 'O';

/// Whether a segment of `body` lies on the cell with index `i`.
pub open spec fn covered(body: Seq<Position>, board: BoardView, i: int) -> bool {
    exists|k: int| 0 <= k < body.len() && board.index_of(#[trigger] body[k]) == i
}

/// `cells` with the snake drawn over it: the head symbol on the head's cell,
/// the body symbol on the cell of every other segment, every other cell as
/// it was.
pub open spec fn with_snake(
    cells: Seq<char>,
    body: Seq<Position>,
    body_symbol: char,
    head_symbol: char,
    board: BoardView,
) -> Seq<char> {
    Seq::new(
        cells.len(),
        |i: int|
            if board.index_of(body[0]) == i {
                head_symbol
            } else if covered(body, board, i) {
                body_symbol
            } else {
                cells[i]
            },
    )
}

/// `cells` with the food drawn over it, if there is any.
pub open spec fn with_food(cells: Seq<char>, food: Option<Position>, board: BoardView) -> Seq<
    char,
> {
    match food {
        Some(f) => cells.update(board.index_of(f), FOOD_SYMBOL),
        None => cells,
    }
}

/// The cells of the whole grid, row by row: the background everywhere, the
/// snake over it, the food over both.
pub open spec fn painted(
    board: BoardView,
    body: Seq<Position>,
    body_symbol: char,
    head_symbol: char,
    food: Option<Position>,
) -> Seq<char> {
    with_food(
        with_snake(
            Seq::new(board.area(), |i: int| board.background),
            body,
            body_symbol,
            head_symbol,
            board,
        ),
        food,
        board,
    )
}

/// The cells that a painting shows in another symbol than the background.
pub open spec fn marked(cells: Seq<char>, background: char) -> Set<int> {
    Set::new(|i: int| 0 <= i < cells.len() && cells[i] != background)
}

/// A painting has one cell for each cell of the grid. With no food, and with
/// a snake of distinct segments on the grid whose symbols both differ from
/// the background, the cells that differ from the background are as many as
/// the snake has segments, and the head's cell shows the head symbol.
pub proof fn lemma_painted_snake(
    board: BoardView,
    body: Seq<Position>,
    body_symbol: char,
    head_symbol: char,
)
    requires
        body.len() >= 1,
        body.no_duplicates(),
        within(body, board),
        body_symbol != board.background,
        head_symbol != board.background,
    ensures
        painted(board, body, body_symbol, head_symbol, None).len() == board.area(),
        marked(painted(board, body, body_symbol, head_symbol, None), board.background).finite(),
        marked(painted(board, body, body_symbol, head_symbol, None), board.background).len()
            == body.len(),
        painted(board, body, body_symbol, head_symbol, None)[board.index_of(body[0])]
            == head_symbol,
{
    let cells = painted(board, body, body_symbol, head_symbol, None);
    let indices = body.map_values(|p: Position| board.index_of(p));
    assert forall|a: int, b: int|
        0 <= a < indices.len() && 0 <= b < indices.len() && a != b implies indices[a]
        != indices[b] by {
        assert(board.holds(body[a]) && board.holds(body[b]));
        if indices[a] == indices[b] {
            lemma_index_injective(
                board,
                body[a].row as int,
                body[a].col as int,
                body[b].row as int,
                body[b].col as int,
            );
        }
    }
    assert(board.holds(body[0]));
    lemma_index_in_area(board, body[0].row as int, body[0].col as int);
    let shown = marked(cells, board.background);
    assert forall|i: int| shown.contains(i) <==> indices.to_set().contains(i) by {
        if shown.contains(i) {
            if board.index_of(body[0]) == i {
                assert(indices[0] == i);
            } else {
                let k = choose|k: int|
                    0 <= k < body.len() && board.index_of(#[trigger] body[k]) == i;
                assert(indices[k] == i);
            }
        }
        if indices.to_set().contains(i) {
            let k = choose|k: int| 0 <= k < indices.len() && indices[k] == i;
            assert(board.holds(body[k]));
            lemma_index_in_area(board, body[k].row as int, body[k].col as int);
            assert(board.index_of(body[k]) == i);
        }
    }
    assert(shown =~= indices.to_set());
    indices.unique_seq_to_set();
    vstd::seq_lib::seq_to_set_is_finite(indices);
}

/// Draws the snake over `cells`, which hold one symbol for each cell of the
/// grid, row by row: first the body symbol on every segment's cell, then the
/// head symbol on the head's cell.
pub fn put_snake_to_board(snake: &Snake, cells: &mut [char], board: &Board)
    requires
        snake.wf(),
        within(snake@, board@),
        old(cells)@.len() == board@.area(),
    ensures
        final(cells)@ == with_snake(
            old(cells)@,
            snake@,
            snake.body_symbol(),
            snake.head_symbol(),
            board@,
        ),
{
    let ghost before = cells@;
    let body_symbol = snake.body_symbol();
    let n = snake.len();
    let mut i: usize = 0;
    while i < n
        invariant
            n == snake@.len(),
            i <= n,
            within(snake@, board@),
            cells@.len() == board@.area(),
            before.len() == board@.area(),
            body_symbol == snake.body_symbol(),
            forall|j: int|
                0 <= j < cells@.len() ==> cells@[j] == if covered(
                    snake@.take(i as int),
                    board@,
                    j,
                ) {
                    body_symbol
                } else {
                    before[j]
                },
        decreases n - i,
    {
        let p = snake.segment(i);
        proof {
            assert(board@.holds(snake@[i as int]));
            lemma_index_in_area(board@, p.row as int, p.col as int);
            board.lemma_dimensions_bounded();
        }
        let index = board.cell_index(p.row, p.col);
        cells[index] = body_symbol;
        proof {
            let done = snake@.take(i as int);
            let next = snake@.take(i + 1);
            assert forall|j: int| 0 <= j < cells@.len() implies cells@[j] == if covered(
                next,
                board@,
                j,
            ) {
                body_symbol
            } else {
                before[j]
            } by {
                if covered(done, board@, j) {
                    let k = choose|k: int|
                        0 <= k < done.len() && board@.index_of(#[trigger] done[k]) == j;
                    assert(next[k] == done[k]);
                }
                if j == index {
                    assert(board@.index_of(next[i as int]) == j);
                }
                if covered(next, board@, j) && j != index {
                    let k = choose|k: int|
                        0 <= k < next.len() && board@.index_of(#[trigger] next[k]) == j;
                    assert(done[k] == next[k]);
                }
            }
        }
        i += 1;
    }
    let head = snake.head();
    proof {
        assert(snake@.take(n as int) == snake@);
        assert(board@.holds(snake@[0]));
        lemma_index_in_area(board@, head.row as int, head.col as int);
        board.lemma_dimensions_bounded();
    }
    let index = board.cell_index(head.row, head.col);
    cells[index] = snake.head_symbol();
    assert(cells@ =~= with_snake(
        before,
        snake@,
        snake.body_symbol(),
        snake.head_symbol(),
        board@,
    ));
}

/// The cells of the grid, row by row, as a fresh vector of `width * height`
/// symbols: the food symbol on the food's cell, if there is food; else the
/// head symbol on the head's cell; else the body symbol on a cell under the
/// snake; else the background symbol.
pub fn paint(board: &Board, snake: &Snake, food: Option<Position>) -> (cells: Vec<char>)
    requires
        snake.wf(),
        within(snake@, board@),
        food matches Some(f) ==> board@.holds(f),
    ensures
        cells@ == painted(board@, snake@, snake.body_symbol(), snake.head_symbol(), food),
        cells@.len() == board@.area(),
{
    let area = board.area();
    let background = board.background_symbol();
    let mut cells: Vec<char> = Vec::new();
    let mut i: usize = 0;
    while i < area
        invariant
            area == board@.area(),
            background == board@.background,
            i <= area,
            cells@ == Seq::new(i as nat, |j: int| board@.background),
        decreases area - i,
    {
        cells.push(background);
        assert(cells@ =~= Seq::new((i + 1) as nat, |j: int| board@.background));
        i += 1;
    }
    put_snake_to_board(snake, cells.as_mut_slice(), board);
    match food {
        Some(f) => {
            proof {
                lemma_index_in_area(board@, f.row as int, f.col as int);
                board.lemma_dimensions_bounded();
            }
            let index = board.cell_index(f.row, f.col);
            cells[index] = FOOD_SYMBOL;
        },
        None => {},
    }
    cells
}

} // verus!
