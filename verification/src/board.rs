//! The grid model: cell states, move validation and application, and
//! win detection.

use vstd::prelude::*;

verus! {

/// One of the two player identities. The grid itself keeps no notion of
/// whose turn it is; that belongs to the caller.
#[derive(Clone, Copy, PartialEq, Eq, Structural, Debug)]
pub enum Player {
    X,
    O,
}

/// The state of one grid position: empty, or marked for one of the players.
/// A cell, once marked, never changes again.
#[derive(Clone, Copy, PartialEq, Eq, Structural, Debug)]
pub enum Cell {
    Empty,
    MarkedX,
    MarkedO,
}

/// The outcome of scanning the grid for a winning configuration.
#[derive(Clone, Copy, PartialEq, Eq, Structural, Debug)]
pub enum Outcome {
    WinX,
    WinO,
    NoWinner,
}

/// Every way a grid operation can fail. Construction fails only with
/// `InvalidDimensions`; a move fails only with `OutOfRange` or
/// `AlreadyOccupied`.
#[derive(Clone, Copy, PartialEq, Eq, Structural, Debug)]
pub enum GridError {
    /// A dimension handed to `Board::new` is below 3.
    InvalidDimensions,
    /// A coordinate handed to `Board::play` is outside the grid.
    OutOfRange,
    /// The addressed cell already carries a mark.
    AlreadyOccupied,
}

/// The mark that a move by `player` leaves behind.
pub open spec fn mark_of(player: Player) -> Cell {
    match player {
        Player::X => Cell::MarkedX,
        Player::O => Cell::MarkedO,
    }
}

/// The outcome that a winning cell in state `cell` yields. An empty cell
/// never wins, so `Empty` maps to `NoWinner` only vacuously.
pub open spec fn win_outcome(cell: Cell) -> Outcome {
    match cell {
        Cell::MarkedX => Outcome::WinX,
        Cell::MarkedO => Outcome::WinO,
        Cell::Empty => Outcome::NoWinner,
    }
}

/// Row-major order on grid positions: `(r1, c1)` is scanned strictly
/// before `(r2, c2)`.
pub open spec fn rm_before(r1: int, c1: int, r2: int, c2: int) -> bool {
    r1 < r2 || (r1 == r2 && c1 < c2)
}

/// A rectangular grid of cells, `height` rows by `width` columns, both at
/// least 3. Cells are stored row-major in one flat vector.
pub struct Board {
    width: usize,
    height: usize,
    cells: Vec<Cell>,
}

impl Board {
    /// The number of columns, as a mathematical integer.
    pub closed spec fn spec_width(self) -> int {
        self.width as int
    }

    /// The number of rows, as a mathematical integer.
    pub closed spec fn spec_height(self) -> int {
        self.height as int
    }

    /// Well-formedness: dimensions at least 3, and storage for exactly
    /// one cell per position.
    pub closed spec fn wf(self) -> bool {
        &&& self.width >= 3
        &&& self.height >= 3
        &&& self.cells@.len() == self.spec_height() * self.spec_width()
    }

    /// Whether `(row, col)` addresses a position of the grid.
    pub open spec fn in_bounds(self, row: int, col: int) -> bool {
        &&& 0 <= row < self.spec_height()
        &&& 0 <= col < self.spec_width()
    }

    /// The cell at `(row, col)`.
    pub closed spec fn cell_at(self, row: int, col: int) -> Cell {
        self.cells@[row * self.spec_width() + col]
    }

    /// A winning cell: a marked cell directly flanked by two cells with the
    /// same mark on one axis — left and right (so `col` is neither the
    /// first nor the last column), or above and below (so `row` is neither
    /// the first nor the last row). The two axes are independent; either
    /// suffices.
    pub open spec fn cell_wins(self, row: int, col: int) -> bool {
        &&& self.in_bounds(row, col)
        &&& self.cell_at(row, col) != Cell::Empty
        &&& ({
            ||| {
                &&& 0 < col < self.spec_width() - 1
                &&& self.cell_at(row, col - 1) == self.cell_at(row, col)
                &&& self.cell_at(row, col + 1) == self.cell_at(row, col)
            }
            ||| {
                &&& 0 < row < self.spec_height() - 1
                &&& self.cell_at(row - 1, col) == self.cell_at(row, col)
                &&& self.cell_at(row + 1, col) == self.cell_at(row, col)
            }
        })
    }

    /// The first winning cell in row-major scan order: `(row, col)` wins,
    /// and no position scanned before it does.
    pub open spec fn is_first_win(self, row: int, col: int) -> bool {
        &&& self.cell_wins(row, col)
        &&& forall|r2: int, c2: int|
            rm_before(r2, c2, row, col) ==> !self.cell_wins(r2, c2)
    }

    /// What `calculate` must report of grid state `self`: `NoWinner`
    /// exactly when no cell wins, and otherwise the mark of the first
    /// winning cell in row-major order.
    pub open spec fn outcome_matches(self, outcome: Outcome) -> bool {
        &&& (outcome == Outcome::NoWinner <==> (forall|r: int, c: int|
            !self.cell_wins(r, c)))
        &&& (outcome != Outcome::NoWinner ==> (exists|r: int, c: int|
            self.is_first_win(r, c) && outcome == win_outcome(self.cell_at(r, c))))
    }

    /// The result that a move on `(row, col)` must report when the grid is
    /// in state `self`: out-of-range coordinates are rejected first, then a
    /// cell that already carries a mark; an in-range empty cell accepts the
    /// move. The verdict does not depend on who is moving.
    pub open spec fn move_result(self, row: int, col: int) -> Result<(), GridError> {
        if !self.in_bounds(row, col) {
            Err(GridError::OutOfRange)
        } else if self.cell_at(row, col) != Cell::Empty {
            Err(GridError::AlreadyOccupied)
        } else {
            Ok(())
        }
    }

    /// Construct a grid of `width` columns and `height` rows, every cell
    /// empty. Fails with `InvalidDimensions` exactly when a dimension is
    /// below 3.
    pub fn new(width: usize, height: usize) -> (result: Result<Board, GridError>)
        ensures
            match result {
                Ok(b) => {
                    &&& width >= 3
                    &&& height >= 3
                    &&& b.wf()
                    &&& b.spec_width() == width
                    &&& b.spec_height() == height
                    &&& forall|r: int, c: int|
                        b.in_bounds(r, c) ==> b.cell_at(r, c) == Cell::Empty
                },
                Err(e) => e == GridError::InvalidDimensions && (width < 3 || height < 3),
            },
    {
        if width < 3 || height < 3 {
            return Err(GridError::InvalidDimensions);
        }
        let mut cells: Vec<Cell> = Vec::new();
        let mut r: usize = 0;
        while r < height
            invariant
                r <= height,
                cells@.len() == r * width,
                forall|k: int| 0 <= k < cells@.len() ==> cells@[k] == Cell::Empty,
            decreases height - r,
        {
            let mut c: usize = 0;
            while c < width
                invariant
                    c <= width,
                    cells@.len() == r * width + c,
                    forall|k: int| 0 <= k < cells@.len() ==> cells@[k] == Cell::Empty,
                decreases width - c,
            {
                cells.push(Cell::Empty);
                c += 1;
            }
            assert((r + 1) * width == r * width + width) by (nonlinear_arith);
            r += 1;
        }
        let b = Board { width, height, cells };
        proof {
            assert forall|i: int, j: int| b.in_bounds(i, j) implies b.cell_at(i, j)
                == Cell::Empty by {
                lemma_grid_index(i, j, b.spec_width(), b.spec_height());
            }
        }
        Ok(b)
    }

    /// The number of columns.
    pub fn width(&self) -> (w: usize)
        ensures
            w == self.spec_width(),
    {
        self.width
    }

    /// The number of rows.
    pub fn height(&self) -> (h: usize)
        ensures
            h == self.spec_height(),
    {
        self.height
    }

    /// The flat storage index of position `(row, col)`.
    fn index_of(&self, row: usize, col: usize) -> (i: usize)
        requires
            self.wf(),
            row < self.spec_height(),
            col < self.spec_width(),
        ensures
            i == row as int * self.spec_width() + col as int,
            i < self.cells@.len(),
    {
        // Reading the length bounds the storage size, and with it the
        // index, below usize::MAX.
        let n = self.cells.len();
        proof {
            lemma_grid_index(row as int, col as int, self.spec_width(), self.spec_height());
            assert(row as int * self.spec_width() + col < n);
        }
        row * self.width + col
    }

    /// Read the cell at `(row, col)`.
    pub fn cell(&self, row: usize, col: usize) -> (cell: Cell)
        requires
            self.wf(),
            row < self.spec_height(),
            col < self.spec_width(),
        ensures
            cell == self.cell_at(row as int, col as int),
    {
        let i = self.index_of(row, col);
        self.cells[i]
    }

    /// Decide whether the cell at `(row, col)` is a winning cell.
    pub fn is_field_win(&self, row: usize, col: usize) -> (b: bool)
        requires
            self.wf(),
            row < self.spec_height(),
            col < self.spec_width(),
        ensures
            b == self.cell_wins(row as int, col as int),
    {
        let base = self.cell(row, col);
        if base == Cell::Empty {
            return false;
        }
        if col != 0 && col != self.width - 1 {
            if self.cell(row, col - 1) == base && self.cell(row, col + 1) == base {
                return true;
            }
        }
        if row != 0 && row != self.height - 1 {
            if self.cell(row - 1, col) == base && self.cell(row + 1, col) == base {
                return true;
            }
        }
        false
    }

    /// Scan the whole grid, row by row and left to right within a row, and
    /// report the outcome of the first winning cell encountered, or
    /// `NoWinner` when no cell wins. A pure read: the grid is not changed.
    pub fn calculate(&self) -> (outcome: Outcome)
        requires
            self.wf(),
        ensures
            self.outcome_matches(outcome),
    {
        let mut row: usize = 0;
        while row < self.height
            invariant
                self.wf(),
                row <= self.spec_height(),
                forall|r: int, c: int| r < row ==> !self.cell_wins(r, c),
            decreases self.spec_height() - row,
        {
            let mut col: usize = 0;
            while col < self.width
                invariant
                    self.wf(),
                    row < self.spec_height(),
                    col <= self.spec_width(),
                    forall|r: int, c: int| r < row ==> !self.cell_wins(r, c),
                    forall|c: int| c < col ==> !self.cell_wins(row as int, c),
                decreases self.spec_width() - col,
            {
                if self.is_field_win(row, col) {
                    let winner = self.cell(row, col);
                    proof {
                        assert(self.is_first_win(row as int, col as int));
                    }
                    match winner {
                        Cell::MarkedX => {
                            return Outcome::WinX;
                        },
                        Cell::MarkedO => {
                            return Outcome::WinO;
                        },
                        Cell::Empty => {
                            assert(false);
                        },
                    }
                }
                col += 1;
            }
            row += 1;
        }
        proof {
            assert forall|r: int, c: int| !self.cell_wins(r, c) by {
                if self.in_bounds(r, c) {
                    assert(r < row);
                }
            }
        }
        Outcome::NoWinner
    }

    /// Attempt to mark the cell at `(row, col)` for `player`.
    ///
    /// Exactly one of three things happens, decided by `move_result` on the
    /// grid as it was: the coordinates are out of range, or the cell is
    /// already occupied — in either case the grid is unchanged — or the
    /// move succeeds, that one cell becomes the player's mark, and every
    /// other cell keeps its state. The dimensions never change.
    pub fn play(&mut self, row: usize, col: usize, player: Player) -> (m: Result<(), GridError>)
        requires
            old(self).wf(),
        ensures
            final(self).wf(),
            final(self).spec_width() == old(self).spec_width(),
            final(self).spec_height() == old(self).spec_height(),
            m == old(self).move_result(row as int, col as int),
            m is Ok ==> {
                &&& final(self).cell_at(row as int, col as int) == mark_of(player)
                &&& forall|r: int, c: int|
                    old(self).in_bounds(r, c) && !(r == row as int && c == col as int)
                        ==> final(self).cell_at(r, c) == old(self).cell_at(r, c)
            },
            m is Err ==> *final(self) == *old(self),
    {
        if row >= self.height || col >= self.width {
            return Err(GridError::OutOfRange);
        }
        let i = self.index_of(row, col);
        if !matches!(self.cells[i], Cell::Empty) {
            return Err(GridError::AlreadyOccupied);
        }
        let mark = match player {
            Player::X => Cell::MarkedX,
            Player::O => Cell::MarkedO,
        };
        self.cells[i] = mark;
        proof {
            assert forall|r: int, c: int|
                old(self).in_bounds(r, c) && !(r == row as int && c == col as int)
                    implies self.cell_at(r, c) == old(self).cell_at(r, c) by {
                lemma_grid_index(r, c, self.spec_width(), self.spec_height());
                lemma_index_distinct(r, c, row as int, col as int, self.spec_width());
            }
        }
        Ok(())
    }
}

/// A row-major position index lies inside the flat storage.
proof fn lemma_grid_index(r: int, c: int, w: int, h: int)
    requires
        0 <= r < h,
        0 <= c < w,
    ensures
        0 <= r * w + c < h * w,
{
    assert(0 <= r * w + c < h * w) by (nonlinear_arith)
        requires
            0 <= r < h,
            0 <= c < w,
    ;
}

/// Distinct positions have distinct row-major indices.
proof fn lemma_index_distinct(r1: int, c1: int, r2: int, c2: int, w: int)
    requires
        0 <= c1 < w,
        0 <= c2 < w,
        0 <= r1,
        0 <= r2,
        !(r1 == r2 && c1 == c2),
    ensures
        r1 * w + c1 != r2 * w + c2,
{
    if r1 != r2 {
        assert(r1 * w + c1 != r2 * w + c2) by (nonlinear_arith)
            requires
                0 <= c1 < w,
                0 <= c2 < w,
                r1 != r2,
        ;
    }
}

} // verus!
