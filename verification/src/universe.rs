//! The universe: a bit-packed grid and the operations on it.

use crate::bitset::{bit_at, bits_of, count_ones};
use crate::counting::lemma_occurrences_bounded;
use crate::grid::{bytes_to_cells, cells_to_bytes, next_state, Grid, ALIVE_GLYPH, DEAD_GLYPH};
use crate::patterns::{glider, glider_bitmap, pulsar, pulsar_bitmap, GLIDER_SIZE, PULSAR_SIZE};
use crate::random::random_ratio;
use crate::torus::{lemma_torus_index_in_range, lemma_torus_index_row_major, wrap_coordinate};
use fixedbitset::FixedBitSet;
use vstd::arithmetic::div_mod::lemma_fundamental_div_mod_converse;
use vstd::prelude::*;

verus! {

/// The extent of an axis for which the caller names none.
pub const DEFAULT_EXTENT: u32 = 64;

/// The chance at which every cell starts alive. Chances are counted in parts
/// of this number.
pub const CERTAIN: u32 = u32::MAX;

/// Why a sequence of bytes was not taken for the cells of a universe: there
/// was not exactly one byte for each cell.
#[derive(Clone, Copy, Debug, PartialEq, Eq, Structural)]
pub struct SizeMismatch {
    /// The number of cells of the universe.
    pub expected: usize,
    /// The number of bytes that were offered.
    pub found: usize,
}

/// A Game of Life on a torus.
pub struct Universe {
    width: u32,
    height: u32,
    cells: FixedBitSet,
    generation: u32,
}

impl View for Universe {
    type V = Grid;

    closed spec fn view(&self) -> Grid {
        Grid {
            width: self.width as nat,
            height: self.height as nat,
            cells: bits_of(&self.cells),
            generation: self.generation as nat,
        }
    }
}

/// The live cells among the first `offsets` of the nine cells in the block
/// around `(row, column)`, taken row by row; the cell in the middle is passed
/// over.
spec fn neighbours_among(grid: Grid, row: int, column: int, offsets: int) -> int {
    (if offsets > 0 {
        grid.census(row - 1, column - 1)
    } else {
        0
    }) + (if offsets > 1 {
        grid.census(row - 1, column)
    } else {
        0
    }) + (if offsets > 2 {
        grid.census(row - 1, column + 1)
    } else {
        0
    }) + (if offsets > 3 {
        grid.census(row, column - 1)
    } else {
        0
    }) + (if offsets > 5 {
        grid.census(row, column + 1)
    } else {
        0
    }) + (if offsets > 6 {
        grid.census(row + 1, column - 1)
    } else {
        0
    }) + (if offsets > 7 {
        grid.census(row + 1, column)
    } else {
        0
    }) + (if offsets > 8 {
        grid.census(row + 1, column + 1)
    } else {
        0
    })
}

impl Universe {
    /// There is one cell for each pair of a row and a column, and the number
    /// of cells fits the counter that reports the population. Every
    /// constructor establishes this and every operation keeps it.
    pub open spec fn wf(&self) -> bool {
        &&& self@.wf()
        &&& self@.cells.len() <= u32::MAX
    }

    /// A universe of `width` columns and `height` rows, each `DEFAULT_EXTENT`
    /// where none is given, in its first generation. Every cell is alive
    /// with a chance of `initial_probability` in `CERTAIN`, independently of
    /// the others: none is at a chance of zero, which is also the chance
    /// where none is given, and all are at `CERTAIN`.
    ///
    /// The number of cells must fit in 32 bits. A universe without rows or
    /// without columns has no cells; it can be ticked and read, but no cell
    /// of it can be named.
    pub fn new(
        width: Option<u32>,
        height: Option<u32>,
        initial_probability: Option<u32>,
    ) -> (universe: Universe)
        requires
            width.unwrap_or(DEFAULT_EXTENT) * height.unwrap_or(DEFAULT_EXTENT) <= u32::MAX,
        ensures
            universe@.width == width.unwrap_or(DEFAULT_EXTENT),
            universe@.height == height.unwrap_or(DEFAULT_EXTENT),
            universe@.generation == 0,
            universe.wf(),
            initial_probability.unwrap_or(0) == 0 ==> universe@.cells == Seq::new(
                universe@.cells.len(),
                |i: int| false,
            ),
            initial_probability == Some(CERTAIN) ==> universe@.cells == Seq::new(
                universe@.cells.len(),
                |i: int| true,
            ),
    {
        let width = width.unwrap_or(DEFAULT_EXTENT);
        let height = height.unwrap_or(DEFAULT_EXTENT);
        let initial_probability = initial_probability.unwrap_or(0);

        let mut cells = FixedBitSet::with_capacity((width * height) as usize);
        let mut i: usize = 0;
        while i < cells.len()
            invariant
                bits_of(&cells).len() == width * height,
                i <= bits_of(&cells).len(),
                initial_probability == 0 ==> forall|j: int|
                    0 <= j < bits_of(&cells).len() ==> !bits_of(&cells)[j],
                initial_probability == CERTAIN ==> forall|j: int|
                    0 <= j < i ==> bits_of(&cells)[j],
            decreases bits_of(&cells).len() - i,
        {
            cells.set(i, random_ratio(initial_probability, CERTAIN));
            i += 1;
        }

        Universe { width, height, cells, generation: 0 }
    }

    /// The number of columns.
    pub fn width(&self) -> (width: u32)
        ensures
            width == self@.width,
    {
        self.width
    }

    /// The number of rows.
    pub fn height(&self) -> (height: u32)
        ensures
            height == self@.height,
    {
        self.height
    }

    /// The number of ticks that this universe has lived through.
    pub fn generation(&self) -> (generation: u32)
        ensures
            generation == self@.generation,
    {
        self.generation
    }

    /// The index of the cell that `(row, column)` names, for coordinates of
    /// any magnitude and either sign.
    fn index_at(&self, row: i64, column: i64) -> (index: usize)
        requires
            self.wf(),
            self@.inhabited(),
        ensures
            index == self@.index(row as int, column as int),
            index < self@.cells.len(),
    {
        proof {
            lemma_torus_index_in_range(
                self.width as int,
                self.height as int,
                row as int,
                column as int,
            );
        }
        let row = wrap_coordinate(row, self.height);
        let column = wrap_coordinate(column, self.width);
        (row * self.width + column) as usize
    }

    /// The index of the cell that `(row, column)` names. Coordinates off the
    /// grid wrap around it, so every pair names a cell, provided that the
    /// universe has any.
    pub fn get_index(&self, row: i32, column: i32) -> (index: usize)
        requires
            self.wf(),
            self@.inhabited(),
        ensures
            index == self@.index(row as int, column as int),
            index < self@.cells.len(),
    {
        self.index_at(row as i64, column as i64)
    }

    /// Writes the cell that `(row, column)` names, for coordinates of any
    /// magnitude and either sign.
    fn write_at(&mut self, row: i64, column: i64, state: bool)
        requires
            old(self).wf(),
            old(self)@.inhabited(),
        ensures
            final(self)@ == old(self)@.with_cell(row as int, column as int, state),
            final(self).wf(),
    {
        let index = self.index_at(row, column);
        self.cells.set(index, state);
    }

    /// Writes the cell that `(row, column)` names.
    pub fn set_cell(&mut self, row: i32, column: i32, state: bool)
        requires
            old(self).wf(),
            old(self)@.inhabited(),
        ensures
            final(self)@ == old(self)@.with_cell(row as int, column as int, state),
            final(self).wf(),
    {
        self.write_at(row as i64, column as i64, state);
    }

    /// Turns the cell that `(row, column)` names from dead to alive or from
    /// alive to dead.
    pub fn toggle_cell(&mut self, row: i32, column: i32)
        requires
            old(self).wf(),
            old(self)@.inhabited(),
        ensures
            final(self)@ == old(self)@.with_cell(
                row as int,
                column as int,
                !old(self)@.alive(row as int, column as int),
            ),
            final(self).wf(),
    {
        let index = self.get_index(row, column);
        self.cells.toggle(index);
    }

    /// How many cells are alive.
    pub fn population(&self) -> (population: u32)
        requires
            self.wf(),
        ensures
            population == self@.population(),
            population <= self@.width * self@.height,
    {
        proof {
            lemma_occurrences_bounded(self@.cells, true);
        }
        count_ones(&self.cells) as u32
    }

    /// The cells as bytes, 1 for a live cell and 0 for a dead one, row after
    /// row.
    pub fn get_cells(&self) -> (cells: Vec<u8>)
        requires
            self.wf(),
        ensures
            cells@ == cells_to_bytes(self@.cells),
            cells@.len() == self@.width * self@.height,
    {
        let mut vec: Vec<u8> = Vec::new();
        let mut i: usize = 0;
        while i < self.cells.len()
            invariant
                i <= self@.cells.len(),
                vec@.len() == i,
                forall|j: int| 0 <= j < i ==> vec@[j] == cells_to_bytes(self@.cells)[j],
            decreases self@.cells.len() - i,
        {
            if bit_at(&self.cells, i) {
                vec.push(1);
            } else {
                vec.push(0);
            }
            i += 1;
        }
        assert(vec@ =~= cells_to_bytes(self@.cells));
        vec
    }

    /// Replaces every cell at once: cell `i` becomes alive if byte `i` is
    /// anything but zero, and dead if it is zero.
    ///
    /// There must be exactly one byte for each cell. A caller that cannot
    /// vouch for that calls `try_set_cells`.
    pub fn set_cells(&mut self, cells: Vec<u8>)
        requires
            old(self).wf(),
            cells@.len() == old(self)@.width * old(self)@.height,
        ensures
            final(self)@ == (Grid { cells: bytes_to_cells(cells@), ..old(self)@ }),
            final(self).wf(),
    {
        let mut i: usize = 0;
        while i < cells.len()
            invariant
                i <= cells@.len(),
                cells@.len() == self@.cells.len(),
                self@.width == old(self)@.width,
                self@.height == old(self)@.height,
                self@.generation == old(self)@.generation,
                forall|j: int| 0 <= j < i ==> self@.cells[j] == (cells@[j] > 0),
            decreases cells@.len() - i,
        {
            self.cells.set(i, cells[i] > 0);
            i += 1;
        }
        assert(self@.cells =~= bytes_to_cells(cells@));
    }

    /// Replaces every cell at once, as `set_cells` does, if there is exactly
    /// one byte for each cell. If there is not, nothing is changed, and the
    /// error says how many bytes were wanted and how many were found.
    pub fn try_set_cells(&mut self, cells: Vec<u8>) -> (outcome: Result<(), SizeMismatch>)
        requires
            old(self).wf(),
        ensures
            outcome is Ok <==> cells@.len() == old(self)@.width * old(self)@.height,
            outcome is Ok ==> final(self)@ == (Grid {
                cells: bytes_to_cells(cells@),
                ..old(self)@
            }),
            outcome matches Err(mismatch) ==> {
                &&& final(self)@ == old(self)@
                &&& mismatch.expected == old(self)@.width * old(self)@.height
                &&& mismatch.found == cells@.len()
            },
            final(self).wf(),
    {
        let expected = self.cells.len();
        let found = cells.len();
        if found != expected {
            return Err(SizeMismatch { expected, found });
        }
        self.set_cells(cells);
        Ok(())
    }

    /// Writes a square bitmap of side `size` over the cells around
    /// `(row, column)`, the middle of the bitmap on that cell.
    fn stamp(&mut self, bitmap: &Vec<u8>, size: u8, row: i32, column: i32)
        requires
            old(self).wf(),
            old(self)@.inhabited(),
            size > 0,
            bitmap@.len() == size * size,
        ensures
            final(self)@ == old(self)@.stamped(
                bitmap@,
                size as int,
                row as int,
                column as int,
                (size * size) as nat,
            ),
            old(self)@.width >= size && old(self)@.height >= size
                ==> final(self)@.shows_stamp(
                old(self)@,
                bitmap@,
                size as int,
                row as int,
                column as int,
            ),
            final(self)@.width == old(self)@.width,
            final(self)@.height == old(self)@.height,
            final(self)@.generation == old(self)@.generation,
            final(self).wf(),
    {
        let nudge: i64 = (size / 2) as i64;
        let mut r: u8 = 0;
        while r < size
            invariant
                self.wf(),
                self@.inhabited(),
                0 <= r <= size,
                nudge == size / 2,
                bitmap@.len() == size * size,
                self@.width == old(self)@.width,
                self@.height == old(self)@.height,
                self@.generation == old(self)@.generation,
                self@ == old(self)@.stamped(
                    bitmap@,
                    size as int,
                    row as int,
                    column as int,
                    (r * size) as nat,
                ),
            decreases size - r,
        {
            let mut c: u8 = 0;
            while c < size
                invariant
                    self.wf(),
                    self@.inhabited(),
                    0 <= r < size,
                    0 <= c <= size,
                    nudge == size / 2,
                    bitmap@.len() == size * size,
                    self@.width == old(self)@.width,
                    self@.height == old(self)@.height,
                    self@.generation == old(self)@.generation,
                    self@ == old(self)@.stamped(
                        bitmap@,
                        size as int,
                        row as int,
                        column as int,
                        (r * size + c) as nat,
                    ),
                decreases size - c,
            {
                proof {
                    lemma_torus_index_row_major(size as int, size as int, r as int, c as int);
                    assert(size * size <= 255 * 255) by (nonlinear_arith)
                        requires
                            0 < size <= 255,
                    ;
                }
                let k: usize = r as usize * size as usize + c as usize;
                self.write_at(
                    row as i64 + r as i64 - nudge,
                    column as i64 + c as i64 - nudge,
                    bitmap[k] > 0,
                );
                c += 1;
            }
            assert(r * size + size == (r + 1) * size) by (nonlinear_arith);
            r += 1;
        }
        proof {
            if old(self)@.width >= size && old(self)@.height >= size {
                old(self)@.lemma_whole_stamp_with_room(
                    bitmap@,
                    size as int,
                    row as int,
                    column as int,
                );
            }
        }
    }

    /// Stamps a glider around `(row, column)`, turned clockwise by
    /// `orientation` quarter turns. Any orientation but 1, 2 and 3 is the
    /// glider as it stands. Cells that fall off the grid wrap around it.
    ///
    /// The cells of the bitmap are written one after the other. On a
    /// universe of at least three rows and three columns each has a cell of
    /// its own, and the glider is there to be seen; on a smaller one a later
    /// cell of the bitmap overwrites an earlier one.
    pub fn add_glider(&mut self, row: i32, column: i32, orientation: u8)
        requires
            old(self).wf(),
            old(self)@.inhabited(),
        ensures
            final(self)@ == old(self)@.stamped(
                glider_bitmap(orientation),
                GLIDER_SIZE as int,
                row as int,
                column as int,
                (GLIDER_SIZE * GLIDER_SIZE) as nat,
            ),
            old(self)@.width >= GLIDER_SIZE && old(self)@.height >= GLIDER_SIZE
                ==> final(self)@.shows_stamp(
                old(self)@,
                glider_bitmap(orientation),
                GLIDER_SIZE as int,
                row as int,
                column as int,
            ),
            final(self)@.width == old(self)@.width,
            final(self)@.height == old(self)@.height,
            final(self)@.generation == old(self)@.generation,
            final(self).wf(),
    {
        let bitmap = glider(orientation);
        self.stamp(&bitmap, GLIDER_SIZE, row, column);
    }

    /// Stamps a pulsar around `(row, column)`. Cells that fall off the grid
    /// wrap around it.
    ///
    /// The cells of the bitmap are written one after the other. On a
    /// universe of at least fifteen rows and fifteen columns each has a cell
    /// of its own, and the pulsar is there to be seen; on a smaller one a
    /// later cell of the bitmap overwrites an earlier one.
    pub fn add_pulsar(&mut self, row: i32, column: i32)
        requires
            old(self).wf(),
            old(self)@.inhabited(),
        ensures
            final(self)@ == old(self)@.stamped(
                pulsar_bitmap(),
                PULSAR_SIZE as int,
                row as int,
                column as int,
                (PULSAR_SIZE * PULSAR_SIZE) as nat,
            ),
            old(self)@.width >= PULSAR_SIZE && old(self)@.height >= PULSAR_SIZE
                ==> final(self)@.shows_stamp(
                old(self)@,
                pulsar_bitmap(),
                PULSAR_SIZE as int,
                row as int,
                column as int,
            ),
            final(self)@.width == old(self)@.width,
            final(self)@.height == old(self)@.height,
            final(self)@.generation == old(self)@.generation,
            final(self).wf(),
    {
        let bitmap = pulsar();
        self.stamp(&bitmap, PULSAR_SIZE, row, column);
    }

    /// How many of the eight cells around `(row, column)` are alive, with
    /// neighbours off the grid found on its far side.
    pub fn count_living_neighbours(&self, row: u32, column: u32) -> (count: u8)
        requires
            self.wf(),
            self@.inhabited(),
        ensures
            count == self@.living_neighbours(row as int, column as int),
            count <= 8,
    {
        let mut count: u8 = 0;
        let mut dr: i64 = -1;
        while dr <= 1
            invariant
                self.wf(),
                self@.inhabited(),
                -1 <= dr <= 2,
                count == neighbours_among(self@, row as int, column as int, 3 * (dr + 1)),
                count <= 3 * (dr + 1),
            decreases 2 - dr,
        {
            let mut dc: i64 = -1;
            while dc <= 1
                invariant
                    self.wf(),
                    self@.inhabited(),
                    -1 <= dr <= 1,
                    -1 <= dc <= 2,
                    count == neighbours_among(
                        self@,
                        row as int,
                        column as int,
                        3 * (dr + 1) + (dc + 1),
                    ),
                    count <= 3 * (dr + 1) + (dc + 1),
                    dr == 1 && dc == 2 ==> count <= 8,
                decreases 2 - dc,
            {
                // The cell itself is no neighbour of its own.
                if !(dr == 0 && dc == 0) {
                    let index = self.index_at(row as i64 + dr, column as i64 + dc);
                    if bit_at(&self.cells, index) {
                        count += 1;
                    }
                }
                dc += 1;
            }
            dr += 1;
        }
        count
    }

    /// The rule of the game: whether a cell lives in the next generation,
    /// given how many of its neighbours live now and whether it does.
    pub fn get_next_cell_state(
        &self,
        living_neighbour_count: u8,
        current_state: bool,
    ) -> (next: bool)
        ensures
            next == next_state(living_neighbour_count as int, current_state),
    {
        match current_state {
            false => living_neighbour_count == 3,
            true => living_neighbour_count == 2 || living_neighbour_count == 3,
        }
    }

    /// Advances the universe by one generation. Every cell is judged by its
    /// neighbours as they were before the tick: the next generation is built
    /// apart and takes the place of this one only when it is complete. The
    /// count of generations stops at `GENERATION_LIMIT`.
    pub fn tick(&mut self)
        requires
            old(self).wf(),
        ensures
            final(self)@ == old(self)@.successor(),
            final(self).wf(),
    {
        let mut next = self.cells.clone();
        let mut r: u32 = 0;
        while r < self.height
            invariant
                *self == *old(self),
                self.wf(),
                0 <= r <= self.height,
                bits_of(&next).len() == self@.cells.len(),
                forall|i: int|
                    0 <= i < r * self.width ==> bits_of(&next)[i] == self@.next_cells()[i],
            decreases self.height - r,
        {
            let mut c: u32 = 0;
            while c < self.width
                invariant
                    *self == *old(self),
                    self.wf(),
                    0 <= r < self.height,
                    0 <= c <= self.width,
                    bits_of(&next).len() == self@.cells.len(),
                    forall|i: int|
                        0 <= i < r * self.width + c ==> bits_of(&next)[i]
                            == self@.next_cells()[i],
                decreases self.width - c,
            {
                proof {
                    lemma_torus_index_row_major(
                        self.width as int,
                        self.height as int,
                        r as int,
                        c as int,
                    );
                }
                let index = self.index_at(r as i64, c as i64);
                let neighbours_alive = self.count_living_neighbours(r, c);
                let alive = bit_at(&self.cells, index);
                next.set(index, self.get_next_cell_state(neighbours_alive, alive));
                c += 1;
            }
            assert(r * self.width + self.width == (r + 1) * self.width) by (nonlinear_arith);
            r += 1;
        }
        assert(bits_of(&next) =~= self@.next_cells()) by {
            assert(self.height * self.width == self.width * self.height) by (nonlinear_arith);
        }
        self.cells = next;
        self.generation = self.generation.saturating_add(1);
    }

    /// The universe as text: one line for each row, and in each line one
    /// glyph and a space for each cell.
    pub fn render(&self) -> (text: String)
        requires
            self.wf(),
        ensures
            text@ == self@.rendering(),
    {
        let ghost line = 2 * (self.width as int) + 1;
        let ghost whole = self@.rendering();
        let mut text = String::new();
        let mut r: u32 = 0;
        while r < self.height
            invariant
                self.wf(),
                line == 2 * self.width + 1,
                whole == self@.rendering(),
                0 <= r <= self.height,
                text@.len() == if self.width == 0 {
                    0
                } else {
                    r * line
                },
                forall|at: int| 0 <= at < text@.len() ==> text@[at] == whole[at],
            decreases self.height - r,
        {
            let mut c: u32 = 0;
            while c < self.width
                invariant
                    self.wf(),
                    line == 2 * self.width + 1,
                    whole == self@.rendering(),
                    0 <= r < self.height,
                    0 <= c <= self.width,
                    self.width == 0 ==> text@.len() == 0,
                    self.width > 0 ==> text@.len() == r * line + 2 * c + if c == self.width {
                        1int
                    } else {
                        0int
                    },
                    forall|at: int| 0 <= at < text@.len() ==> text@[at] == whole[at],
                decreases self.width - c,
            {
                proof {
                    lemma_torus_index_row_major(
                        self.width as int,
                        self.height as int,
                        r as int,
                        c as int,
                    );
                    lemma_fundamental_div_mod_converse(r * line + 2 * c, line, r as int, 2 * c);
                    lemma_fundamental_div_mod_converse(
                        r * line + 2 * c + 1,
                        line,
                        r as int,
                        2 * c + 1,
                    );
                    assert((r + 1) * line <= self.height * line) by (nonlinear_arith)
                        requires
                            r < self.height,
                            line > 0,
                    ;
                    assert((r + 1) * line == r * line + line) by (nonlinear_arith);
                }
                let index = self.index_at(r as i64, c as i64);
                let symbol = if bit_at(&self.cells, index) {
                    ALIVE_GLYPH
                } else {
                    DEAD_GLYPH
                };
                text.push(symbol);
                text.push(' ');
                if c == self.width - 1 {
                    proof {
                        lemma_fundamental_div_mod_converse(
                            r * line + 2 * c + 2,
                            line,
                            r as int,
                            2 * c + 2,
                        );
                    }
                    text.push('\n');
                }
                c += 1;
            }
            assert((r + 1) * line == r * line + line) by (nonlinear_arith);
            r += 1;
        }
        assert(text@ =~= whole);
        text
    }
}

} // verus!
