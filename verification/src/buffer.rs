//! The flat character grid that a redraw fills and hands to the display
//! backend: 25 rows of 81 cells each. The last cell of every row is reserved
//! for a line-break sentinel, and the very last cell of the grid holds a
//! terminator instead. Objects draw only into the visible columns.

use vstd::prelude::*;

verus! {

/// Number of character rows on the screen.
pub const ROWS: usize = 25;

/// Number of cells per row, the reserved sentinel column included.
pub const COLS: usize = 81;

/// Objects may write into columns `0 .. VISIBLE_COLS` only.
pub const VISIBLE_COLS: usize = 80;

/// Total number of cells in the grid.
pub const CELL_COUNT: usize = 2025;

/// The character a reserved cell must hold: the terminator in the very last
/// cell, a line break at the end of every other row.
pub open spec fn sentinel_at(i: int) -> char {
    if i == CELL_COUNT - 1 {
        '\0'
    } else {
        '\n'
    }
}

/// A well-formed grid: exactly `CELL_COUNT` cells, and every cell of the
/// reserved column holds its sentinel.
pub open spec fn grid_wf(s: Seq<char>) -> bool {
    &&& s.len() == CELL_COUNT
    &&& forall|i: int|
        0 <= i < CELL_COUNT && i % (COLS as int) == COLS - 1 ==> #[trigger] s[i] == sentinel_at(i)
}

/// The blank grid every redraw starts from: a space in every visible cell and
/// the sentinels in the reserved column.
pub open spec fn blank_grid() -> Seq<char> {
    Seq::new(
        CELL_COUNT as nat,
        |i: int|
            if i % (COLS as int) == COLS - 1 {
                sentinel_at(i)
            } else {
                ' '
            },
    )
}

/// The text screen of one redraw, stored row-major: the cell at `(row, col)`
/// is `self@[row * COLS + col]`. Always well-formed, so the reserved column
/// can never be overwritten.
pub struct FrameBuffer {
    cells: Vec<char>,
}

impl View for FrameBuffer {
    type V = Seq<char>;

    closed spec fn view(&self) -> Seq<char> {
        self.cells@
    }
}

impl FrameBuffer {
    #[verifier::type_invariant]
    spec fn inv(self) -> bool {
        grid_wf(self@)
    }

    /// A fresh blank screen.
    pub fn blank() -> (fb: FrameBuffer)
        ensures
            fb@ == blank_grid(),
    {
        let mut cells: Vec<char> = Vec::new();
        let mut i: usize = 0;
        while i < CELL_COUNT
            invariant
                i <= CELL_COUNT,
                cells@.len() == i,
                forall|j: int| 0 <= j < i ==> cells@[j] == blank_grid()[j],
            decreases CELL_COUNT - i,
        {
            let c: char = if i % COLS == COLS - 1 {
                if i == CELL_COUNT - 1 {
                    '\0'
                } else {
                    '\n'
                }
            } else {
                ' '
            };
            cells.push(c);
            i += 1;
        }
        proof {
            assert(cells@ =~= blank_grid());
        }
        FrameBuffer { cells }
    }

    /// The character at a cell.
    pub fn get(&self, row: usize, col: usize) -> (c: char)
        requires
            row < ROWS,
            col < COLS,
        ensures
            c == self@[row * COLS + col],
    {
        proof {
            use_type_invariant(&*self);
        }
        self.cells[row * COLS + col]
    }

    /// Write a character into a visible cell. The reserved column cannot be
    /// named, so the sentinels survive every write.
    pub fn set(&mut self, row: usize, col: usize, c: char)
        requires
            row < ROWS,
            col < VISIBLE_COLS,
        ensures
            final(self)@ == old(self)@.update((row * COLS + col) as int, c),
    {
        proof {
            use_type_invariant(&*self);
            assert((row * COLS + col) as int % (COLS as int) == col as int) by (nonlinear_arith)
                requires
                    col < 81,
                    row >= 0,
            ;
        }
        let i: usize = row * COLS + col;
        self.cells[i] = c;
    }

    /// The whole grid as one flat text, ready for the display backend.
    pub fn cells(&self) -> (v: &Vec<char>)
        ensures
            v@ == self@,
    {
        &self.cells
    }
}

} // verus!
