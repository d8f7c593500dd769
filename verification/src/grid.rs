//! The mathematical model of a universe, which the contracts of its
//! operations speak about, and what follows from the model alone.

use crate::counting::{lemma_occurrences_bounded, occurrences};
use crate::torus::{lemma_torus_index_in_range, lemma_torus_index_periodic, torus_index};
use vstd::prelude::*;

verus! {

/// The generation at which the count of ticks stops: a universe that has
/// lived through this many ticks goes on changing, but counts no further.
pub const GENERATION_LIMIT: u32 = u32::MAX;

/// The rule of the game: whether a cell lives in the next generation, given
/// how many of its neighbours live now and whether it does. A live cell
/// survives with two or three live neighbours; a dead cell comes to life with
/// exactly three.
pub open spec fn next_state(living_neighbours: int, alive: bool) -> bool {
    if alive {
        living_neighbours == 2 || living_neighbours == 3
    } else {
        living_neighbours == 3
    }
}

/// The cells as bytes, the form in which they leave the universe: 1 for a
/// live cell and 0 for a dead one, in the order of the cells.
pub open spec fn cells_to_bytes(cells: Seq<bool>) -> Seq<u8> {
    Seq::new(
        cells.len(),
        |i: int|
            if cells[i] {
                1u8
            } else {
                0u8
            },
    )
}

/// The cells that a sequence of bytes stands for: a live cell for any byte
/// but zero, in the order of the bytes.
pub open spec fn bytes_to_cells(bytes: Seq<u8>) -> Seq<bool> {
    Seq::new(bytes.len(), |i: int| bytes[i] > 0)
}

/// The glyph that shows a live cell.
pub const ALIVE_GLYPH: char = '\u{25FC}';

/// The glyph that shows a dead cell.
pub const DEAD_GLYPH: char = '\u{25FB}';

/// A universe as plain mathematics: its extents, its cells in row-major
/// order (`true` is alive), and how many ticks it has lived through.
pub struct Grid {
    pub width: nat,
    pub height: nat,
    pub cells: Seq<bool>,
    pub generation: nat,
}

impl Grid {
    /// There is exactly one cell for each pair of a row and a column.
    pub open spec fn wf(self) -> bool {
        self.cells.len() == self.width * self.height
    }

    /// Neither axis is empty, so that coordinates can be wrapped onto them.
    pub open spec fn inhabited(self) -> bool {
        self.width > 0 && self.height > 0
    }

    /// The index in `cells` of the cell that `(row, column)` names.
    pub open spec fn index(self, row: int, column: int) -> int {
        torus_index(self.width as int, self.height as int, row, column)
    }

    /// Whether the cell that `(row, column)` names is alive.
    pub open spec fn alive(self, row: int, column: int) -> bool {
        self.cells[self.index(row, column)]
    }

    /// What the cell that `(row, column)` names adds to a count of live
    /// cells: one if it is alive, nothing if it is dead.
    pub open spec fn census(self, row: int, column: int) -> int {
        if self.alive(row, column) {
            1
        } else {
            0
        }
    }

    /// How many of the eight cells around `(row, column)` are alive. On a
    /// grid with fewer than three rows or columns some of the eight are one
    /// and the same cell, which is then counted once for each of them.
    pub open spec fn living_neighbours(self, row: int, column: int) -> int {
        self.census(row - 1, column - 1) + self.census(row - 1, column) + self.census(
            row - 1,
            column + 1,
        ) + self.census(row, column - 1) + self.census(row, column + 1) + self.census(
            row + 1,
            column - 1,
        ) + self.census(row + 1, column) + self.census(row + 1, column + 1)
    }

    /// The cells of the next generation: the rule applied to every cell at
    /// once, each judged by its neighbours in this generation.
    pub open spec fn next_cells(self) -> Seq<bool> {
        Seq::new(
            self.cells.len(),
            |i: int|
                next_state(
                    self.living_neighbours(i / (self.width as int), i % (self.width as int)),
                    self.cells[i],
                ),
        )
    }

    /// This grid one tick later. The count of generations stops at
    /// `GENERATION_LIMIT`.
    pub open spec fn successor(self) -> Grid {
        Grid {
            cells: self.next_cells(),
            generation: if self.generation < GENERATION_LIMIT {
                self.generation + 1
            } else {
                self.generation
            },
            ..self
        }
    }

    /// This grid after so many ticks.
    pub open spec fn after(self, ticks: nat) -> Grid
        decreases ticks,
    {
        if ticks == 0 {
            self
        } else {
            self.after((ticks - 1) as nat).successor()
        }
    }

    /// This grid with one cell written.
    pub open spec fn with_cell(self, row: int, column: int, alive: bool) -> Grid {
        Grid { cells: self.cells.update(self.index(row, column), alive), ..self }
    }

    /// This grid after the first `written` cells of a square bitmap of side
    /// `size` have been written to it, one after the other in row-major
    /// order, with the middle of the bitmap on `(row, column)`. Any value of
    /// the bitmap but zero makes its cell alive. Where the grid is smaller
    /// than the bitmap, a later cell of the bitmap overwrites an earlier one.
    pub open spec fn stamped(
        self,
        bitmap: Seq<u8>,
        size: int,
        row: int,
        column: int,
        written: nat,
    ) -> Grid
        decreases written,
    {
        if written == 0 {
            self
        } else {
            let k = written - 1;
            self.stamped(bitmap, size, row, column, k as nat).with_cell(
                row + k / size - size / 2,
                column + k % size - size / 2,
                bitmap[k] > 0,
            )
        }
    }

    /// The grid as text: one line for each row, from the first row down, and
    /// in each line one glyph for each cell, from the first column across,
    /// with a space after every glyph and a line feed at the end of the
    /// line. A grid without columns has no lines.
    pub open spec fn rendering(self) -> Seq<char> {
        let line = 2 * (self.width as int) + 1;
        Seq::new(
            if self.width == 0 {
                0nat
            } else {
                (self.height * line) as nat
            },
            |at: int|
                {
                    let row = at / line;
                    let within = at % line;
                    if within == line - 1 {
                        '\n'
                    } else if within % 2 == 1 {
                        ' '
                    } else if self.cells[row * self.width + within / 2] {
                        ALIVE_GLYPH
                    } else {
                        DEAD_GLYPH
                    }
                },
        )
    }

    /// How many cells are alive.
    pub open spec fn population(self) -> nat {
        occurrences(self.cells, true)
    }
}

/// Cells that are written out as bytes and read back are the cells that were
/// written out, and so are the bytes when they are written out once more.
pub proof fn lemma_cells_survive_bytes(cells: Seq<bool>)
    ensures
        bytes_to_cells(cells_to_bytes(cells)) == cells,
        cells_to_bytes(bytes_to_cells(cells_to_bytes(cells))) == cells_to_bytes(cells),
{
    assert(bytes_to_cells(cells_to_bytes(cells)) =~= cells);
}

/// Bytes that are read as cells and written out again come back as 1 where
/// they were anything but zero, and as 0 where they were zero.
pub proof fn lemma_bytes_are_normalised(bytes: Seq<u8>)
    ensures
        cells_to_bytes(bytes_to_cells(bytes)) == Seq::new(
            bytes.len(),
            |i: int|
                if bytes[i] == 0 {
                    0u8
                } else {
                    1u8
                },
        ),
{
    assert(cells_to_bytes(bytes_to_cells(bytes)) =~= Seq::new(
        bytes.len(),
        |i: int|
            if bytes[i] == 0 {
                0u8
            } else {
                1u8
            },
    ));
}

/// There are as many live cells as there are bytes of 1 among the cells
/// written out as bytes, and never more than there are cells.
pub proof fn lemma_population_counts_ones(cells: Seq<bool>)
    ensures
        occurrences(cells, true) == occurrences(cells_to_bytes(cells), 1u8),
        occurrences(cells, true) <= cells.len(),
    decreases cells.len(),
{
    lemma_occurrences_bounded(cells, true);
    if cells.len() > 0 {
        lemma_population_counts_ones(cells.drop_last());
        assert(cells_to_bytes(cells).drop_last() =~= cells_to_bytes(cells.drop_last()));
    }
}

impl Grid {
    /// A grid whose cells are replaced by what they are as bytes, read back,
    /// is the grid that it was.
    pub proof fn lemma_bytes_restore_the_grid(self)
        ensures
            (Grid { cells: bytes_to_cells(cells_to_bytes(self.cells)), ..self }) == self,
    {
        lemma_cells_survive_bytes(self.cells);
    }

    /// The population lies between nothing and the number of cells.
    pub proof fn lemma_population_bounded(self)
        requires
            self.wf(),
        ensures
            0 <= self.population() <= self.width * self.height,
    {
        lemma_occurrences_bounded(self.cells, true);
    }

    /// A tick keeps the extents of a grid and the number of its cells.
    pub proof fn lemma_successor_keeps_the_shape(self)
        requires
            self.wf(),
        ensures
            self.successor().wf(),
            self.successor().width == self.width,
            self.successor().height == self.height,
    {
    }

    /// Below the limit of the count, a tick adds exactly one generation.
    pub proof fn lemma_successor_adds_one_generation(self)
        requires
            self.generation < GENERATION_LIMIT,
        ensures
            self.successor().generation == self.generation + 1,
    {
    }

    /// Ticks add up: as long as the count stays within its limit, a grid is
    /// as many generations further on as it has been ticked. A grid in
    /// generation zero is in generation `ticks` after so many ticks.
    pub proof fn lemma_after_adds_generations(self, ticks: nat)
        requires
            self.wf(),
            self.generation + ticks <= GENERATION_LIMIT,
        ensures
            self.after(ticks).wf(),
            self.after(ticks).width == self.width,
            self.after(ticks).height == self.height,
            self.after(ticks).generation == self.generation + ticks,
        decreases ticks,
    {
        if ticks > 0 {
            self.lemma_after_adds_generations((ticks - 1) as nat);
        }
    }

    /// The count of generations never goes down.
    pub proof fn lemma_generation_never_falls(self)
        ensures
            self.successor().generation >= self.generation,
    {
    }

    /// Coordinates that differ by a whole number of grid heights down and
    /// of grid widths across name the same cell.
    pub proof fn lemma_index_periodic(self, row: int, column: int, turns: int)
        requires
            self.inhabited(),
        ensures
            self.index(row + turns * self.height, column + turns * self.width) == self.index(
                row,
                column,
            ),
            0 <= self.index(row, column) < self.width * self.height,
    {
        lemma_torus_index_periodic(self.width as int, self.height as int, row, column, turns);
        lemma_torus_index_in_range(self.width as int, self.height as int, row, column);
    }

    /// Writing a cell changes that cell and no other.
    pub proof fn lemma_with_cell_writes_one_cell(self, row: int, column: int, alive: bool)
        requires
            self.wf(),
            self.inhabited(),
        ensures
            self.with_cell(row, column, alive).wf(),
            self.with_cell(row, column, alive).alive(row, column) == alive,
            forall|i: int|
                0 <= i < self.cells.len() && i != self.index(row, column) ==> self.with_cell(
                    row,
                    column,
                    alive,
                ).cells[i] == self.cells[i],
    {
        lemma_torus_index_in_range(self.width as int, self.height as int, row, column);
    }
}

} // verus!
