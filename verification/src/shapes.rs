//! Two shapes that every player of the game knows, and what a tick does to
//! them wherever they lie on the torus: the block, which stays as it is, and
//! the blinker, which turns by a quarter with every tick.

use crate::grid::Grid;
use crate::torus::{
    lemma_index_splits, lemma_offsets_of_neighbours, lemma_torus_index_in_range,
    lemma_torus_index_row_major, lemma_wrap_in_range, lemma_wrap_of_in_range, lemma_wrap_step,
    wrap,
};
use vstd::prelude::*;

verus! {

impl Grid {
    /// The live cells are exactly the four of the block whose top left
    /// corner is `(top, left)`: those that lie at most one row below `top`
    /// and at most one column to the right of `left`, going round the torus.
    pub open spec fn is_block(self, top: int, left: int) -> bool {
        forall|row: int, column: int| #[trigger]
            self.alive(row, column) <==> wrap(row - top, self.height as int) < 2 && wrap(
                column - left,
                self.width as int,
            ) < 2
    }

    /// The live cells are exactly the three of the blinker that lies along
    /// a row with its middle on `(row, column)`.
    pub open spec fn is_horizontal_blinker(self, row: int, column: int) -> bool {
        forall|r: int, c: int| #[trigger]
            self.alive(r, c) <==> wrap(r - row, self.height as int) == 0 && wrap(
                c - (column - 1),
                self.width as int,
            ) < 3
    }

    /// The live cells are exactly the three of the blinker that lies along
    /// a column with its middle on `(row, column)`.
    pub open spec fn is_vertical_blinker(self, row: int, column: int) -> bool {
        forall|r: int, c: int| #[trigger]
            self.alive(r, c) <==> wrap(r - (row - 1), self.height as int) < 3 && wrap(
                c - column,
                self.width as int,
            ) == 0
    }

    /// A block that has dead cells on every side is a still life: a tick
    /// leaves every cell of the grid as it was.
    pub proof fn lemma_block_is_still(self, top: int, left: int)
        requires
            self.wf(),
            self.width >= 3,
            self.height >= 3,
            self.is_block(top, left),
        ensures
            self.successor().cells == self.cells,
    {
        let w = self.width as int;
        let h = self.height as int;
        assert forall|i: int| 0 <= i < self.cells.len() implies self.next_cells()[i]
            == self.cells[i] by {
            // How far the cell and each of its neighbours lie from the corner
            // of the block settles which of them are alive; the rule does
            // the rest.
            let row = i / w;
            let column = i % w;
            lemma_index_splits(w, h, i);
            lemma_torus_index_row_major(w, h, row, column);
            lemma_wrap_of_in_range(row, h);
            lemma_wrap_of_in_range(column, w);
            lemma_offsets_of_neighbours(row, top, h);
            lemma_offsets_of_neighbours(column, left, w);
            assert(self.cells[i] == self.alive(row, column));
        }
        assert(self.next_cells() =~= self.cells);
    }

    /// A blinker that lies along a row, with room to either side, stands
    /// along a column after a tick, its middle where it was.
    pub proof fn lemma_horizontal_blinker_turns(self, row: int, column: int)
        requires
            self.wf(),
            self.width >= 4,
            self.height >= 3,
            self.is_horizontal_blinker(row, column),
        ensures
            self.successor().is_vertical_blinker(row, column),
    {
        let w = self.width as int;
        let h = self.height as int;
        let next = self.successor();
        assert forall|r: int, c: int| #[trigger]
            next.alive(r, c) <==> wrap(r - (row - 1), h) < 3 && wrap(c - column, w) == 0 by {
            // The cell `(r, c)` is the cell `(y, x)` of the grid. How far it
            // and its neighbours lie from the blinker settles which of them
            // are alive; the rule does the rest.
            let y = wrap(r, h);
            let x = wrap(c, w);
            lemma_wrap_in_range(r, h);
            lemma_wrap_in_range(c, w);
            lemma_torus_index_in_range(w, h, r, c);
            lemma_torus_index_row_major(w, h, y, x);
            lemma_offsets_of_neighbours(r, row, h);
            lemma_offsets_of_neighbours(c, column - 1, w);
            lemma_wrap_step(r - row, h);
            lemma_wrap_step(c - (column - 1), w);
            assert(r - (row - 1) == r - row + 1);
            assert(c - column == c - (column - 1) - 1);
            assert(self.alive(r, c) == self.alive(y, x));
        }
    }

    /// A blinker that stands along a column, with room above and below, lies
    /// along a row after a tick, its middle where it was.
    pub proof fn lemma_vertical_blinker_turns(self, row: int, column: int)
        requires
            self.wf(),
            self.width >= 3,
            self.height >= 4,
            self.is_vertical_blinker(row, column),
        ensures
            self.successor().is_horizontal_blinker(row, column),
    {
        let w = self.width as int;
        let h = self.height as int;
        let next = self.successor();
        assert forall|r: int, c: int| #[trigger]
            next.alive(r, c) <==> wrap(r - row, h) == 0 && wrap(c - (column - 1), w) < 3 by {
            // As for the blinker that lies along a row, with the axes
            // exchanged.
            let y = wrap(r, h);
            let x = wrap(c, w);
            lemma_wrap_in_range(r, h);
            lemma_wrap_in_range(c, w);
            lemma_torus_index_in_range(w, h, r, c);
            lemma_torus_index_row_major(w, h, y, x);
            lemma_offsets_of_neighbours(r, row - 1, h);
            lemma_offsets_of_neighbours(c, column, w);
            lemma_wrap_step(r - (row - 1), h);
            lemma_wrap_step(c - column, w);
            assert(r - row == r - (row - 1) - 1);
            assert(c - (column - 1) == c - column + 1);
            assert(self.alive(r, c) == self.alive(y, x));
        }
    }

    /// Two grids of the same extents in which the same cells are alive have
    /// the same cells.
    pub proof fn lemma_same_life(self, other: Grid)
        requires
            self.wf(),
            other.wf(),
            self.width == other.width,
            self.height == other.height,
            forall|row: int, column: int| self.alive(row, column) == other.alive(row, column),
        ensures
            self.cells == other.cells,
    {
        let w = self.width as int;
        let h = self.height as int;
        assert forall|i: int| 0 <= i < self.cells.len() implies self.cells[i] == other.cells[i] by {
            lemma_index_splits(w, h, i);
            assert(self.cells[i] == self.alive(i / w, i % w));
            assert(other.cells[i] == other.alive(i / w, i % w));
        }
        assert(self.cells =~= other.cells);
    }

    /// A blinker with room on every side is an oscillator of period two: it
    /// lies along a row, stands along a column after one tick, and lies as
    /// it did at first after a second.
    pub proof fn lemma_blinker_oscillates(self, row: int, column: int)
        requires
            self.wf(),
            self.width >= 4,
            self.height >= 4,
            self.is_horizontal_blinker(row, column),
        ensures
            self.successor().is_vertical_blinker(row, column),
            self.successor().successor().is_horizontal_blinker(row, column),
            self.successor().successor().cells == self.cells,
    {
        self.lemma_horizontal_blinker_turns(row, column);
        self.successor().lemma_vertical_blinker_turns(row, column);
        self.lemma_same_life(self.successor().successor());
    }
}

} // verus!
