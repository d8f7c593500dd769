//! What a stamp leaves behind on a grid that has room for the whole bitmap:
//! there no cell of the bitmap falls on another, and the outcome of the
//! writes, taken one after the other, can be read off cell by cell.

use crate::grid::Grid;
use crate::torus::{
    lemma_torus_index_in_range, lemma_torus_index_row_major, lemma_wrap_in_range,
    lemma_wrap_meets, wrap,
};
use vstd::arithmetic::div_mod::{
    lemma_fundamental_div_mod, lemma_fundamental_div_mod_converse, lemma_mod_bound,
};
use vstd::prelude::*;

verus! {

impl Grid {
    /// Two pairs of coordinates name the same cell exactly when they wrap to
    /// the same row and the same column.
    pub proof fn lemma_index_tells_cells_apart(self, row: int, column: int, r: int, c: int)
        requires
            self.inhabited(),
        ensures
            self.index(row, column) == self.index(r, c) <==> wrap(row, self.height as int) == wrap(
                r,
                self.height as int,
            ) && wrap(column, self.width as int) == wrap(c, self.width as int),
    {
        let w = self.width as int;
        let h = self.height as int;
        lemma_wrap_in_range(row, h);
        lemma_wrap_in_range(column, w);
        lemma_wrap_in_range(r, h);
        lemma_wrap_in_range(c, w);
        lemma_torus_index_row_major(w, h, wrap(row, h), wrap(column, w));
        lemma_torus_index_row_major(w, h, wrap(r, h), wrap(c, w));
    }

    /// The cell of the bitmap that a stamp around `(row, column)` has put on
    /// the cell `(r, c)`, if the first `written` cells of the bitmap have
    /// been written and the grid has room for the bitmap; `None` where the
    /// stamp has not reached.
    pub open spec fn stamp_cell(
        self,
        size: int,
        row: int,
        column: int,
        written: nat,
        r: int,
        c: int,
    ) -> Option<int> {
        let down = wrap(r - (row - size / 2), self.height as int);
        let across = wrap(c - (column - size / 2), self.width as int);
        if down < size && across < size && down * size + across < written {
            Some(down * size + across)
        } else {
            None
        }
    }

    /// On a grid with at least as many rows and columns as the bitmap has,
    /// no cell of the bitmap falls on another: the stamp shows every cell
    /// of the bitmap that was written, each as many rows and columns from
    /// the top left corner of the stamp as it lies in the bitmap, and every
    /// cell of the grid that the stamp has not reached is as it was.
    pub proof fn lemma_stamp_with_room(
        self,
        bitmap: Seq<u8>,
        size: int,
        row: int,
        column: int,
        written: nat,
    )
        requires
            self.wf(),
            0 < size <= self.width,
            size <= self.height,
            bitmap.len() == size * size,
            written <= size * size,
        ensures
            self.stamped(bitmap, size, row, column, written).wf(),
            self.stamped(bitmap, size, row, column, written).width == self.width,
            self.stamped(bitmap, size, row, column, written).height == self.height,
            self.stamped(bitmap, size, row, column, written).generation == self.generation,
            forall|r: int, c: int| #[trigger]
                self.stamped(bitmap, size, row, column, written).alive(r, c)
                    == match self.stamp_cell(size, row, column, written, r, c) {
                    Some(k) => bitmap[k] > 0,
                    None => self.alive(r, c),
                },
        decreases written,
    {
        if written > 0 {
            let w = self.width as int;
            let h = self.height as int;
            let k = written - 1;
            let before = self.stamped(bitmap, size, row, column, k as nat);
            let after = self.stamped(bitmap, size, row, column, written);
            let top = row - size / 2;
            let left = column - size / 2;
            let down = k / size;
            let across = k % size;
            // By induction the claim holds before the last write, which puts
            // cell `k` of the bitmap `down` rows and `across` columns from the
            // corner of the stamp.
            self.lemma_stamp_with_room(bitmap, size, row, column, k as nat);
            lemma_fundamental_div_mod(k, size);
            lemma_mod_bound(k, size);
            assert(0 <= down < size) by (nonlinear_arith)
                requires
                    k == size * down + across,
                    0 <= across < size,
                    0 <= k < size * size,
            ;
            assert(after == before.with_cell(top + down, left + across, bitmap[k] > 0));
            lemma_torus_index_in_range(w, h, top + down, left + across);
            assert forall|r: int, c: int| #[trigger]
                after.alive(r, c) == match self.stamp_cell(size, row, column, written, r, c) {
                    Some(at) => bitmap[at] > 0,
                    None => self.alive(r, c),
                } by {
                // The last write reaches `(r, c)` exactly when that cell lies
                // `down` rows and `across` columns from the corner, and no
                // earlier write has reached it there, the grid being roomy.
                let y = wrap(r - top, h);
                let x = wrap(c - left, w);
                lemma_wrap_in_range(r - top, h);
                lemma_wrap_in_range(c - left, w);
                lemma_torus_index_in_range(w, h, r, c);
                before.lemma_index_tells_cells_apart(r, c, top + down, left + across);
                lemma_wrap_meets(r, top, down, h);
                lemma_wrap_meets(c, left, across, w);
                assert(before.alive(r, c) == match self.stamp_cell(
                    size,
                    row,
                    column,
                    k as nat,
                    r,
                    c,
                ) {
                    Some(at) => bitmap[at] > 0,
                    None => self.alive(r, c),
                });
                if y < size && x < size {
                    lemma_fundamental_div_mod_converse(y * size + x, size, y, x);
                    assert(size * down == down * size) by (nonlinear_arith);
                }
            }
        }
    }

    /// This grid is `before` with the whole bitmap stamped around
    /// `(row, column)`, each cell of the bitmap on a cell of its own: a cell
    /// that lies `down` rows below and `across` columns to the right of the
    /// top left corner of the stamp, going round the torus, shows the
    /// bitmap's cell in row `down` and column `across` if there is one, and
    /// is as it was before if there is none.
    pub open spec fn shows_stamp(
        self,
        before: Grid,
        bitmap: Seq<u8>,
        size: int,
        row: int,
        column: int,
    ) -> bool {
        &&& self.width == before.width
        &&& self.height == before.height
        &&& self.generation == before.generation
        &&& self.cells.len() == before.cells.len()
        &&& forall|r: int, c: int|
            {
                let down = wrap(r - (row - size / 2), self.height as int);
                let across = wrap(c - (column - size / 2), self.width as int);
                #[trigger] self.alive(r, c) == if down < size && across < size {
                    bitmap[down * size + across] > 0
                } else {
                    before.alive(r, c)
                }
            }
    }

    /// On a grid with at least as many rows and columns as the bitmap has,
    /// the writes of a whole stamp leave the bitmap on the grid, the middle
    /// of the bitmap on `(row, column)`, and nothing else changed.
    pub proof fn lemma_whole_stamp_with_room(
        self,
        bitmap: Seq<u8>,
        size: int,
        row: int,
        column: int,
    )
        requires
            self.wf(),
            0 < size <= self.width,
            size <= self.height,
            bitmap.len() == size * size,
        ensures
            self.stamped(bitmap, size, row, column, (size * size) as nat).shows_stamp(
                self,
                bitmap,
                size,
                row,
                column,
            ),
    {
        let whole = (size * size) as nat;
        let after = self.stamped(bitmap, size, row, column, whole);
        assert(0 <= size * size) by (nonlinear_arith);
        self.lemma_stamp_with_room(bitmap, size, row, column, whole);
        assert forall|r: int, c: int|
            {
                let down = wrap(r - (row - size / 2), after.height as int);
                let across = wrap(c - (column - size / 2), after.width as int);
                #[trigger] after.alive(r, c) == if down < size && across < size {
                    bitmap[down * size + across] > 0
                } else {
                    self.alive(r, c)
                }
            } by {
            let down = wrap(r - (row - size / 2), self.height as int);
            let across = wrap(c - (column - size / 2), self.width as int);
            lemma_wrap_in_range(r - (row - size / 2), self.height as int);
            lemma_wrap_in_range(c - (column - size / 2), self.width as int);
            if down < size && across < size {
                assert(down * size + across < size * size) by (nonlinear_arith)
                    requires
                        0 <= down < size,
                        0 <= across < size,
                ;
            }
        }
    }
}

} // verus!
