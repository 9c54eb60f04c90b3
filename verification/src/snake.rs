//! The snake: its body, head first, and the rules by which it moves.

use vstd::prelude::*;
use std::collections::VecDeque;
use crate::board::{Board, BoardView, Position};
use crate::direction::{heading, resolve_heading, target, Direction};

verus! {

/// Why a move was refused.
#[derive(Clone, Copy, Debug, PartialEq, Eq, Structural)]
pub enum MoveError {
    /// The target cell lies outside the grid.
    OutOfBounds,
    /// The target cell is covered by the snake.
    SelfCollision,
}

/// What an attempt to move in direction `d` comes to, for a snake with the
/// segments `body` (head first) on `board`.
///
/// The target is judged against the grid first and against the body second.
/// The body is taken as it stands before the move, tail included: the cell
/// that the tail is about to leave still counts as covered.
pub open spec fn move_result(body: Seq<Position>, d: Direction, board: BoardView) -> Result<
    Position,
    MoveError,
> {
    let (row, col) = target(body[0], d);
    let cell = Position { row: row as usize, col: col as usize };
    if !board.contains(row, col) {
        Err(MoveError::OutOfBounds)
    } else if body.contains(cell) {
        Err(MoveError::SelfCollision)
    } else {
        Ok(cell)
    }
}

/// The body after the head has moved to `new_head`: the new head in front,
/// and the old segments behind it, all of them if the snake grew, all but the
/// last if it did not.
pub open spec fn advanced(body: Seq<Position>, new_head: Position, grew: bool) -> Seq<Position> {
    if grew {
        seq![new_head] + body
    } else {
        seq![new_head] + body.drop_last()
    }
}

/// What a move in direction `d` reports, for a snake with the segments
/// `body` on `board` and food on the cell `food`, if there is food: why the
/// move is refused, or else whether the snake grows, which it does exactly
/// when the head reaches the food.
pub open spec fn move_report(
    body: Seq<Position>,
    d: Direction,
    board: BoardView,
    food: Option<Position>,
) -> Result<bool, MoveError> {
    match move_result(body, d, board) {
        Ok(new_head) => Ok(food == Some(new_head)),
        Err(e) => Err(e),
    }
}

/// The body after that move: unchanged if the move is refused, and else
/// [`advanced`] to the target, grown if the target holds the food.
pub open spec fn moved(
    body: Seq<Position>,
    d: Direction,
    board: BoardView,
    food: Option<Position>,
) -> Seq<Position> {
    match move_result(body, d, board) {
        Ok(new_head) => advanced(body, new_head, food == Some(new_head)),
        Err(_) => body,
    }
}

/// Whether every segment of `body` is a cell of `board`.
pub open spec fn within(body: Seq<Position>, board: BoardView) -> bool {
    forall|i: int| 0 <= i < body.len() ==> board.holds(#[trigger] body[i])
}

/// A target that is a free cell of the grid is what the move returns.
pub proof fn lemma_free_target_is_reached(body: Seq<Position>, d: Direction, board: BoardView)
    requires
        body.len() >= 1,
        board.contains(target(body[0], d).0, target(body[0], d).1),
        !body.contains(
            Position { row: target(body[0], d).0 as usize, col: target(body[0], d).1 as usize },
        ),
    ensures
        move_result(body, d, board) == Ok::<Position, MoveError>(
            Position { row: target(body[0], d).0 as usize, col: target(body[0], d).1 as usize },
        ),
{
}

/// A step over any of the four edges of the grid is out of bounds: up from
/// the top row, down from the bottom row, left from the first column, right
/// from the last.
pub proof fn lemma_edge_moves_are_out_of_bounds(body: Seq<Position>, board: BoardView)
    requires
        body.len() >= 1,
    ensures
        body[0].row == 0 ==> move_result(body, Direction::Up, board) == Err::<Position, MoveError>(
            MoveError::OutOfBounds,
        ),
        body[0].row == board.height - 1 ==> move_result(body, Direction::Down, board) == Err::<
            Position,
            MoveError,
        >(MoveError::OutOfBounds),
        body[0].col == 0 ==> move_result(body, Direction::Left, board) == Err::<
            Position,
            MoveError,
        >(MoveError::OutOfBounds),
        body[0].col == board.width - 1 ==> move_result(body, Direction::Right, board) == Err::<
            Position,
            MoveError,
        >(MoveError::OutOfBounds),
{
}

/// A step onto any segment of the body that lies on the grid is a collision.
/// This holds of the last segment too.
pub proof fn lemma_body_hit_is_collision(
    body: Seq<Position>,
    d: Direction,
    board: BoardView,
    k: int,
)
    requires
        0 <= k < body.len(),
        board.holds(body[k]),
        target(body[0], d) == (body[k].row as int, body[k].col as int),
    ensures
        move_result(body, d, board) == Err::<Position, MoveError>(MoveError::SelfCollision),
{
    let (row, col) = target(body[0], d);
    let cell = Position { row: row as usize, col: col as usize };
    assert(cell == body[k]);
}

/// Putting a new head that the body does not cover in front of it, with
/// or without dropping the last segment, leaves no cell covered twice.
pub proof fn lemma_advanced_distinct(body: Seq<Position>, new_head: Position, grew: bool)
    requires
        body.len() >= 1,
        body.no_duplicates(),
        !body.contains(new_head),
    ensures
        advanced(body, new_head, grew).no_duplicates(),
{
    let next = advanced(body, new_head, grew);
    assert forall|i: int, j: int|
        0 <= i < next.len() && 0 <= j < next.len() && i != j implies next[i] != next[j] by {
        if i == 0 {
            assert(next[j] == body[j - 1]);
            assert(body.contains(body[j - 1]));
        } else if j == 0 {
            assert(next[i] == body[i - 1]);
            assert(body.contains(body[i - 1]));
        } else {
            assert(next[i] == body[i - 1] && next[j] == body[j - 1]);
        }
    }
}

/// Putting a new head that is on the grid in front of a body on the grid,
/// with or without dropping the last segment, leaves the body on the grid.
pub proof fn lemma_advanced_within(
    body: Seq<Position>,
    new_head: Position,
    grew: bool,
    board: BoardView,
)
    requires
        body.len() >= 1,
        within(body, board),
        board.holds(new_head),
    ensures
        within(advanced(body, new_head, grew), board),
{
    let next = advanced(body, new_head, grew);
    assert forall|i: int| 0 <= i < next.len() implies board.holds(#[trigger] next[i]) by {
        if i > 0 {
            assert(next[i] == body[i - 1]);
            assert(board.holds(body[i - 1]));
        }
    }
}

/// A move keeps the shape of the snake: a body that covers no cell twice
/// still covers none twice, and a body on the grid is still on the grid,
/// whether or not the snake grows.
pub proof fn lemma_move_keeps_shape(
    body: Seq<Position>,
    d: Direction,
    board: BoardView,
    food: Option<Position>,
)
    requires
        body.len() >= 1,
    ensures
        moved(body, d, board, food).len() >= 1,
        body.no_duplicates() ==> moved(body, d, board, food).no_duplicates(),
        within(body, board) ==> within(moved(body, d, board, food), board),
{
    match move_result(body, d, board) {
        Ok(new_head) => {
            let grew = food == Some(new_head);
            if body.no_duplicates() {
                lemma_advanced_distinct(body, new_head, grew);
            }
            if within(body, board) {
                lemma_advanced_within(body, new_head, grew, board);
            }
        },
        Err(_) => {},
    }
}

/// Whether `p` is one of the positions in `body`.
fn deque_contains(body: &VecDeque<Position>, p: Position) -> (found: bool)
    ensures
        found == body@.contains(p),
{
    let n = body.len();
    let mut i: usize = 0;
    while i < n
        invariant
            n == body@.len(),
            i <= n,
            forall|k: int| 0 <= k < i ==> body@[k] != p,
        decreases n - i,
    {
        if body[i] == p {
            return true;
        }
        i += 1;
    }
    false
}

/// Whether no position occurs twice in `body`.
fn deque_distinct(body: &VecDeque<Position>) -> (distinct: bool)
    ensures
        distinct == body@.no_duplicates(),
{
    let n = body.len();
    let mut i: usize = 0;
    while i < n
        invariant
            n == body@.len(),
            i <= n,
            forall|a: int, b: int| 0 <= a < i && 0 <= b < a ==> body@[a] != body@[b],
        decreases n - i,
    {
        let mut j: usize = 0;
        while j < i
            invariant
                n == body@.len(),
                i < n,
                j <= i,
                forall|b: int| 0 <= b < j ==> body@[i as int] != body@[b],
            decreases i - j,
        {
            if body[i] == body[j] {
                return false;
            }
            j += 1;
        }
        i += 1;
    }
    assert forall|a: int, b: int| 0 <= a < n && 0 <= b < n && a != b implies body@[a]
        != body@[b] by {
        if a < b {
            assert(body@[b] != body@[a]);
        }
    }
    true
}

/// The snake: its segments from head to tail, and the two symbols it is
/// drawn with. It always has a head.
#[derive(Debug)]
pub struct Snake {
    body_symbol: char,
    head_symbol: char,
    body: VecDeque<Position>,
}

impl View for Snake {
    type V = Seq<Position>;

    /// The segments, head first.
    closed spec fn view(&self) -> Seq<Position> {
        self.body@
    }
}

impl Snake {
    /// The snake has at least its head.
    pub open spec fn wf(&self) -> bool {
        self@.len() >= 1
    }

    /// The symbol of a body segment.
    pub closed spec fn spec_body_symbol(&self) -> char {
        self.body_symbol
    }

    /// The symbol of the head.
    pub closed spec fn spec_head_symbol(&self) -> char {
        self.head_symbol
    }

    /// A snake with the given segments, head first. It is made exactly when
    /// there is at least one segment and no cell is named twice.
    pub fn new(body_symbol: char, head_symbol: char, segments: Vec<Position>) -> (r: Option<Snake>)
        ensures
            r is Some <==> segments@.len() >= 1 && segments@.no_duplicates(),
            r matches Some(s) ==> s@ == segments@ && s.wf() && s.spec_body_symbol() == body_symbol
                && s.spec_head_symbol() == head_symbol,
    {
        let mut body: VecDeque<Position> = VecDeque::new();
        let n = segments.len();
        let mut i: usize = 0;
        while i < n
            invariant
                n == segments@.len(),
                i <= n,
                body@ == segments@.take(i as int),
            decreases n - i,
        {
            body.push_back(segments[i]);
            assert(segments@.take(i + 1) == segments@.take(i as int).push(segments@[i as int]));
            i += 1;
        }
        assert(segments@.take(n as int) == segments@);
        if n >= 1 && deque_distinct(&body) {
            Some(Snake { body_symbol, head_symbol, body })
        } else {
            None
        }
    }

    /// The symbol of a body segment.
    #[verifier::when_used_as_spec(spec_body_symbol)]
    pub fn body_symbol(&self) -> (c: char)
        ensures
            c == self.spec_body_symbol(),
    {
        self.body_symbol
    }

    /// The symbol of the head.
    #[verifier::when_used_as_spec(spec_head_symbol)]
    pub fn head_symbol(&self) -> (c: char)
        ensures
            c == self.spec_head_symbol(),
    {
        self.head_symbol
    }

    /// The number of segments.
    pub fn len(&self) -> (n: usize)
        ensures
            n == self@.len(),
    {
        self.body.len()
    }

    /// The segments, head first.
    pub fn segments(&self) -> (v: Vec<Position>)
        ensures
            v@ == self@,
    {
        let n = self.body.len();
        let mut v: Vec<Position> = Vec::new();
        let mut i: usize = 0;
        while i < n
            invariant
                n == self.body@.len(),
                i <= n,
                v@ == self.body@.take(i as int),
            decreases n - i,
        {
            v.push(self.body[i]);
            assert(self.body@.take(i + 1) == self.body@.take(i as int).push(self.body@[i as int]));
            i += 1;
        }
        assert(self.body@.take(n as int) == self.body@);
        v
    }

    /// The segment at place `i`, counted from the head.
    pub fn segment(&self, i: usize) -> (p: Position)
        requires
            i < self@.len(),
        ensures
            p == self@[i as int],
    {
        self.body[i]
    }

    /// The first segment.
    pub fn head(&self) -> (p: Position)
        requires
            self.wf(),
        ensures
            p == self@[0],
    {
        self.body[0]
    }

    /// Whether a segment of the snake lies on `position`.
    pub fn occupies(&self, position: Position) -> (b: bool)
        ensures
            b == self@.contains(position),
    {
        deque_contains(&self.body, position)
    }

    /// Whether no cell is covered by two segments.
    pub fn is_distinct(&self) -> (b: bool)
        ensures
            b == self@.no_duplicates(),
    {
        deque_distinct(&self.body)
    }

    /// Whether every segment lies on `board`.
    pub fn fits(&self, board: &Board) -> (b: bool)
        ensures
            b == within(self@, board@),
    {
        let n = self.body.len();
        let mut i: usize = 0;
        while i < n
            invariant
                n == self.body@.len(),
                i <= n,
                forall|k: int| 0 <= k < i ==> board@.holds(#[trigger] self.body@[k]),
            decreases n - i,
        {
            let p = self.body[i];
            if !board.in_bounds(p.row, p.col) {
                return false;
            }
            i += 1;
        }
        true
    }

    /// Where the head would go in direction `direction`, if the move is
    /// allowed: the cell one step from the head, unless it lies off the grid
    /// (`OutOfBounds`) or under a segment of the snake (`SelfCollision`). The
    /// snake itself is left as it is.
    pub fn attempt_move(&self, direction: Direction, board: &Board) -> (r: Result<
        Position,
        MoveError,
    >)
        requires
            self.wf(),
        ensures
            r == move_result(self@, direction, board@),
    {
        proof {
            board.lemma_dimensions_bounded();
        }
        let head = self.body[0];
        let candidate = match direction {
            Direction::Up => {
                if head.row == 0 {
                    return Err(MoveError::OutOfBounds);
                }
                Position { row: head.row - 1, col: head.col }
            },
            Direction::Down => {
                if head.row == usize::MAX {
                    return Err(MoveError::OutOfBounds);
                }
                Position { row: head.row + 1, col: head.col }
            },
            Direction::Left => {
                if head.col == 0 {
                    return Err(MoveError::OutOfBounds);
                }
                Position { row: head.row, col: head.col - 1 }
            },
            Direction::Right => {
                if head.col == usize::MAX {
                    return Err(MoveError::OutOfBounds);
                }
                Position { row: head.row, col: head.col + 1 }
            },
        };
        if !board.in_bounds(candidate.row, candidate.col) {
            Err(MoveError::OutOfBounds)
        } else if self.occupies(candidate) {
            Err(MoveError::SelfCollision)
        } else {
            Ok(candidate)
        }
    }

    /// Moves the head to `new_head`. The tail stays where it is if the snake
    /// grew, making it one segment longer; otherwise the last segment is
    /// dropped and the length stays the same.
    pub fn advance(&mut self, new_head: Position, grew: bool)
        requires
            old(self).wf(),
        ensures
            final(self)@ == advanced(old(self)@, new_head, grew),
            final(self).wf(),
            final(self)@[0] == new_head,
            !grew ==> final(self)@.len() == old(self)@.len(),
            grew ==> final(self)@.len() == old(self)@.len() + 1,
            grew ==> final(self)@.last() == old(self)@.last(),
            old(self)@.no_duplicates() && !old(self)@.contains(new_head)
                ==> final(self)@.no_duplicates(),
            final(self).spec_body_symbol() == old(self).spec_body_symbol(),
            final(self).spec_head_symbol() == old(self).spec_head_symbol(),
    {
        proof {
            if self@.no_duplicates() && !self@.contains(new_head) {
                lemma_advanced_distinct(self@, new_head, grew);
            }
        }
        self.body.push_front(new_head);
        if !grew {
            let _ = self.body.pop_back();
            assert(self.body@ == seq![new_head] + old(self).body@.drop_last());
        }
    }
}

/// One move of the snake: the travel of a tick, without the food that may
/// follow it.
///
/// The direction is `snapshot`, or down if no direction could be read. If
/// the move is refused, the error says why and the snake is unchanged.
/// Otherwise the head moves to the target, and the result says whether the
/// snake grew, which it does exactly when the target is the cell of `food`.
pub fn move_snake(
    snake: &mut Snake,
    snapshot: Option<Direction>,
    board: &Board,
    food: Option<Position>,
) -> (r: Result<bool, MoveError>)
    requires
        old(snake).wf(),
    ensures
        r == move_report(old(snake)@, heading(snapshot), board@, food),
        final(snake)@ == moved(old(snake)@, heading(snapshot), board@, food),
        final(snake).wf(),
        old(snake)@.no_duplicates() ==> final(snake)@.no_duplicates(),
        within(old(snake)@, board@) ==> within(final(snake)@, board@),
        final(snake).spec_body_symbol() == old(snake).spec_body_symbol(),
        final(snake).spec_head_symbol() == old(snake).spec_head_symbol(),
{
    let direction = resolve_heading(snapshot);
    proof {
        lemma_move_keeps_shape(snake@, direction, board@, food);
    }
    match snake.attempt_move(direction, board) {
        Err(e) => Err(e),
        Ok(new_head) => {
            let grew = match food {
                Some(f) => f == new_head,
                None => false,
            };
            snake.advance(new_head, grew);
            Ok(grew)
        },
    }
}

} // verus!
