//! Grid geometry: dimensions, bounds and the row-major cell index.

use vstd::prelude::*;

verus! {

/// A cell of the grid, by row and column. Row 0 is the top row, column 0 the
/// leftmost column.
#[derive(Clone, Copy, Debug, PartialEq, Eq, Structural)]
pub struct Position {
    pub row: usize,
    pub col: usize,
}

/// Raised when a board is asked for with a zero width or a zero height.
#[derive(Clone, Copy, Debug, PartialEq, Eq, Structural)]
pub struct InvalidDimensions;

/// The mathematical content of a [`Board`].
pub struct BoardView {
    pub width: nat,
    pub height: nat,
    pub background: char,
}

impl BoardView {
    /// Whether `(row, col)` names a cell of the grid.
    pub open spec fn contains(self, row: int, col: int) -> bool {
        0 <= row < self.height && 0 <= col < self.width
    }

    /// Whether `p` is a cell of the grid.
    pub open spec fn holds(self, p: Position) -> bool {
        self.contains(p.row as int, p.col as int)
    }

    /// The number of cells.
    pub open spec fn area(self) -> nat {
        self.width * self.height
    }

    /// The place of `(row, col)` in a row-major listing of the cells.
    pub open spec fn index(self, row: int, col: int) -> int {
        row * self.width + col
    }

    /// The place of `p` in a row-major listing of the cells.
    pub open spec fn index_of(self, p: Position) -> int {
        self.index(p.row as int, p.col as int)
    }
}

/// A cell of the grid has its index below the area.
pub proof fn lemma_index_in_area(board: BoardView, row: int, col: int)
    requires
        board.contains(row, col),
    ensures
        0 <= board.index(row, col) < board.area(),
{
    let w = board.width as int;
    let h = board.height as int;
    assert(0 <= row * w && row * w + w <= w * h) by (nonlinear_arith)
        requires
            0 <= row < h,
            0 <= w,
    ;
}

/// Two cells of the grid with the same index are the same cell.
pub proof fn lemma_index_injective(board: BoardView, r1: int, c1: int, r2: int, c2: int)
    requires
        board.contains(r1, c1),
        board.contains(r2, c2),
        board.index(r1, c1) == board.index(r2, c2),
    ensures
        r1 == r2,
        c1 == c2,
{
    let w = board.width as int;
    if r1 < r2 {
        assert(r1 * w + w <= r2 * w) by (nonlinear_arith)
            requires
                r1 < r2,
                0 <= w,
        ;
    } else if r2 < r1 {
        assert(r2 * w + w <= r1 * w) by (nonlinear_arith)
            requires
                r2 < r1,
                0 <= w,
        ;
    }
}

/// A grid of `width` columns and `height` rows, both positive, with the symbol
/// that an empty cell shows. Nothing of it changes after construction.
#[derive(Clone, Copy, Debug)]
pub struct Board {
    width: u8,
    height: u8,
    background_symbol: char,
}

impl View for Board {
    type V = BoardView;

    closed spec fn view(&self) -> BoardView {
        BoardView {
            width: self.width as nat,
            height: self.height as nat,
            background: self.background_symbol,
        }
    }
}

impl Board {
    #[verifier::type_invariant]
    spec fn positive(&self) -> bool {
        self.width > 0 && self.height > 0
    }

    /// Neither dimension of a board exceeds 255, so its area stays below
    /// 65536.
    pub proof fn lemma_dimensions_bounded(&self)
        ensures
            self@.width <= u8::MAX,
            self@.height <= u8::MAX,
            self@.area() <= 255 * 255,
    {
        let w = self.width as int;
        let h = self.height as int;
        assert(w * h <= 255 * 255) by (nonlinear_arith)
            requires
                0 <= w <= 255,
                0 <= h <= 255,
        ;
    }

    /// A board of the given size. A width or height of zero is refused; every
    /// other size is accepted.
    pub fn new(width: u8, height: u8, background_symbol: char) -> (r: Result<
        Board,
        InvalidDimensions,
    >)
        ensures
            r is Err <==> (width == 0 || height == 0),
            r matches Ok(b) ==> b@ == (BoardView {
                width: width as nat,
                height: height as nat,
                background: background_symbol,
            }),
    {
        if width == 0 || height == 0 {
            Err(InvalidDimensions)
        } else {
            Ok(Board { width, height, background_symbol })
        }
    }

    /// The number of columns.
    pub fn width(&self) -> (w: u8)
        ensures
            w == self@.width,
            w > 0,
    {
        proof {
            use_type_invariant(self);
        }
        self.width
    }

    /// The number of rows.
    pub fn height(&self) -> (h: u8)
        ensures
            h == self@.height,
            h > 0,
    {
        proof {
            use_type_invariant(self);
        }
        self.height
    }

    /// The symbol of an empty cell.
    pub fn background_symbol(&self) -> (c: char)
        ensures
            c == self@.background,
    {
        self.background_symbol
    }

    /// The number of cells, `width * height`.
    pub fn area(&self) -> (n: usize)
        ensures
            n == self@.area(),
            n > 0,
    {
        proof {
            use_type_invariant(self);
            let w = self.width as int;
            let h = self.height as int;
            assert(0 < w * h <= 255 * 255) by (nonlinear_arith)
                requires
                    0 < w <= 255,
                    0 < h <= 255,
            ;
        }
        (self.width as usize) * (self.height as usize)
    }

    /// Whether `(row, col)` names a cell of the grid. If it does, its index
    /// lies below the area.
    pub fn in_bounds(&self, row: usize, col: usize) -> (b: bool)
        ensures
            b == self@.contains(row as int, col as int),
            b ==> self@.index(row as int, col as int) < self@.area() <= usize::MAX,
    {
        proof {
            self.lemma_dimensions_bounded();
            if self@.contains(row as int, col as int) {
                lemma_index_in_area(self@, row as int, col as int);
            }
        }
        row < self.height as usize && col < self.width as usize
    }

    /// The place of `(row, col)` in the row-major listing of the cells:
    /// `row * width + col`. For a cell of the grid it lies below the area.
    pub fn cell_index(&self, row: usize, col: usize) -> (i: usize)
        requires
            self@.index(row as int, col as int) <= usize::MAX,
        ensures
            i == self@.index(row as int, col as int),
            self@.contains(row as int, col as int) ==> i < self@.area(),
    {
        proof {
            let w = self.width as int;
            assert(0 <= row * w) by (nonlinear_arith)
                requires
                    0 <= row,
                    0 <= w,
            ;
            if self@.contains(row as int, col as int) {
                lemma_index_in_area(self@, row as int, col as int);
            }
        }
        row * (self.width as usize) + col
    }
}

} // verus!
