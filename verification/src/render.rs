//! The frame: the painted cells cut into rows, with a border drawn around
//! them, as lines ready to be printed.

use vstd::prelude::*;
use crate::board::{Board, BoardView};

verus! {

/// The upper left corner of the border.
pub const CORNER_TOP_LEFT: char = '\u{256D}';

/// The upper right corner of the border.
pub const CORNER_TOP_RIGHT: char = '\u{256E}';

/// The lower left corner of the border.
pub const CORNER_BOTTOM_LEFT: char = '\u{2570}';

/// The lower right corner of the border.
pub const CORNER_BOTTOM_RIGHT: char = '\u{256F}';

/// The border above and below the grid.
pub const EDGE_HORIZONTAL: char = '\u{2500}';

/// The border left and right of the grid.
pub const EDGE_VERTICAL: char = '\u{2502}';

/// A line of the border above or below the grid: a corner, one horizontal
/// edge for each column, a corner.
pub open spec fn border_line(left: char, right: char, width: nat) -> Seq<char> {
    seq![left] + Seq::new(width, |c: int| EDGE_HORIZONTAL) + seq![right]
}

/// The line that shows row `row` of the grid: its cells between two
/// vertical edges.
pub open spec fn row_line(cells: Seq<char>, board: BoardView, row: int) -> Seq<char> {
    seq![EDGE_VERTICAL] + cells.subrange(row * board.width, row * board.width + board.width)
        + seq![EDGE_VERTICAL]
}

/// The lines of a frame, from top to bottom: the upper border, one line for
/// each row of the grid, the lower border.
pub open spec fn framed(cells: Seq<char>, board: BoardView) -> Seq<Seq<char>> {
    Seq::new(
        board.height + 2,
        |line: int|
            if line == 0 {
                border_line(CORNER_TOP_LEFT, CORNER_TOP_RIGHT, board.width)
            } else if line == board.height + 1 {
                border_line(CORNER_BOTTOM_LEFT, CORNER_BOTTOM_RIGHT, board.width)
            } else {
                row_line(cells, board, line - 1)
            },
    )
}

/// Builds a border line.
fn border(left: char, right: char, width: u8) -> (line: Vec<char>)
    ensures
        line@ == border_line(left, right, width as nat),
{
    let mut line: Vec<char> = Vec::new();
    line.push(left);
    let mut c: u8 = 0;
    while c < width
        invariant
            c <= width,
            line@ == seq![left] + Seq::new(c as nat, |k: int| EDGE_HORIZONTAL),
        decreases width - c,
    {
        line.push(EDGE_HORIZONTAL);
        assert(line@ =~= seq![left] + Seq::new((c + 1) as nat, |k: int| EDGE_HORIZONTAL));
        c += 1;
    }
    line.push(right);
    line
}

/// The painted cells as the lines of a frame: `height + 2` lines of
/// `width + 2` symbols each, the grid row by row inside a border.
pub fn frame(cells: &[char], board: &Board) -> (lines: Vec<Vec<char>>)
    requires
        cells@.len() == board@.area(),
    ensures
        lines@.len() == board@.height + 2,
        forall|k: int|
            0 <= k < lines@.len() ==> (#[trigger] lines@[k])@ == framed(cells@, board@)[k],
        forall|k: int| 0 <= k < lines@.len() ==> (#[trigger] lines@[k])@.len() == board@.width + 2,
{
    let width = board.width();
    let height = board.height();
    let mut lines: Vec<Vec<char>> = Vec::new();
    lines.push(border(CORNER_TOP_LEFT, CORNER_TOP_RIGHT, width));
    let mut row: u8 = 0;
    while row < height
        invariant
            width == board@.width,
            height == board@.height,
            cells@.len() == board@.area(),
            row <= height,
            lines@.len() == row + 1,
            forall|k: int|
                0 <= k < lines@.len() ==> (#[trigger] lines@[k])@ == framed(cells@, board@)[k],
            forall|k: int|
                0 <= k < lines@.len() ==> (#[trigger] lines@[k])@.len() == board@.width + 2,
        decreases height - row,
    {
        let ghost w = width as int;
        let ghost r = row as int;
        proof {
            assert(0 <= r * w && r * w + w <= w * (height as int)) by (nonlinear_arith)
                requires
                    0 <= r < height as int,
                    0 <= w,
            ;
            board.lemma_dimensions_bounded();
        }
        let start = (row as usize) * (width as usize);
        let mut line: Vec<char> = Vec::new();
        line.push(EDGE_VERTICAL);
        let mut c: usize = 0;
        while c < width as usize
            invariant
                w == width,
                r == row,
                start == r * w,
                start + w <= cells@.len() <= usize::MAX,
                c <= w,
                line@ == seq![EDGE_VERTICAL] + cells@.subrange(start as int, start + c),
            decreases width - c,
        {
            line.push(cells[start + c]);
            assert(line@ =~= seq![EDGE_VERTICAL] + cells@.subrange(start as int, start + c + 1));
            c += 1;
        }
        line.push(EDGE_VERTICAL);
        lines.push(line);
        row += 1;
    }
    lines.push(border(CORNER_BOTTOM_LEFT, CORNER_BOTTOM_RIGHT, width));
    lines
}

} // verus!
