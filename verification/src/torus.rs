//! Coordinates on a torus: any integer row or column names a cell, because
//! each coordinate is taken modulo the extent of its axis.

use vstd::arithmetic::div_mod::{
    lemma_fundamental_div_mod, lemma_fundamental_div_mod_converse, lemma_mod_bound,
    lemma_mod_equivalence, lemma_mod_multiples_vanish, lemma_small_mod,
};
use vstd::prelude::*;

verus! {

/// The coordinate in `[0, extent)` that `coordinate` wraps to: its remainder
/// on division by `extent`, which is never negative.
pub open spec fn wrap(coordinate: int, extent: int) -> int {
    coordinate % extent
}

/// The linear, row-major index of the cell that `(row, column)` names on a
/// torus of `width` columns and `height` rows.
pub open spec fn torus_index(width: int, height: int, row: int, column: int) -> int {
    wrap(row, height) * width + wrap(column, width)
}

/// A wrapped coordinate lies on its axis.
pub proof fn lemma_wrap_in_range(coordinate: int, extent: int)
    requires
        extent > 0,
    ensures
        0 <= wrap(coordinate, extent) < extent,
{
    lemma_mod_bound(coordinate, extent);
}

/// A coordinate that lies on its axis wraps to itself.
pub proof fn lemma_wrap_of_in_range(coordinate: int, extent: int)
    requires
        0 <= coordinate < extent,
    ensures
        wrap(coordinate, extent) == coordinate,
{
    lemma_small_mod(coordinate as nat, extent as nat);
}

/// Going round the axis any number of times, in either direction, changes
/// nothing.
pub proof fn lemma_wrap_periodic(coordinate: int, turns: int, extent: int)
    requires
        extent > 0,
    ensures
        wrap(coordinate + turns * extent, extent) == wrap(coordinate, extent),
{
    lemma_mod_multiples_vanish(turns, coordinate, extent);
    assert(extent * turns + coordinate == coordinate + turns * extent) by (nonlinear_arith);
}

/// Every pair of coordinates names a cell of the grid.
pub proof fn lemma_torus_index_in_range(width: int, height: int, row: int, column: int)
    requires
        width > 0,
        height > 0,
    ensures
        0 <= torus_index(width, height, row, column) < width * height,
{
    let r = wrap(row, height);
    let c = wrap(column, width);
    lemma_wrap_in_range(row, height);
    lemma_wrap_in_range(column, width);
    assert(0 <= r * width && r * width + width <= height * width) by (nonlinear_arith)
        requires
            0 <= r < height,
            width > 0,
    ;
    assert(height * width == width * height) by (nonlinear_arith);
}

/// One step along an axis, in either direction, moves a wrapped coordinate
/// by one, and from either end of the axis to the other.
pub proof fn lemma_wrap_step(coordinate: int, extent: int)
    requires
        extent > 0,
    ensures
        wrap(coordinate + 1, extent) == if wrap(coordinate, extent) == extent - 1 {
            0
        } else {
            wrap(coordinate, extent) + 1
        },
        wrap(coordinate - 1, extent) == if wrap(coordinate, extent) == 0 {
            extent - 1
        } else {
            wrap(coordinate, extent) - 1
        },
{
    let q = coordinate / extent;
    let m = coordinate % extent;
    lemma_fundamental_div_mod(coordinate, extent);
    lemma_wrap_in_range(coordinate, extent);
    assert(extent * q == q * extent) by (nonlinear_arith);
    assert((q + 1) * extent == q * extent + extent) by (nonlinear_arith);
    assert((q - 1) * extent == q * extent - extent) by (nonlinear_arith);
    if m == extent - 1 {
        lemma_fundamental_div_mod_converse(coordinate + 1, extent, q + 1, 0);
    } else {
        lemma_fundamental_div_mod_converse(coordinate + 1, extent, q, m + 1);
    }
    if m == 0 {
        lemma_fundamental_div_mod_converse(coordinate - 1, extent, q - 1, extent - 1);
    } else {
        lemma_fundamental_div_mod_converse(coordinate - 1, extent, q, m - 1);
    }
}

/// How far the wrapped coordinate and its two neighbours lie past `origin`,
/// in terms of how far the coordinate itself lies past it.
pub proof fn lemma_offsets_of_neighbours(coordinate: int, origin: int, extent: int)
    requires
        extent > 0,
    ensures
        0 <= wrap(coordinate - origin, extent) < extent,
        wrap(wrap(coordinate, extent) - origin, extent) == wrap(coordinate - origin, extent),
        wrap(wrap(coordinate, extent) + 1 - origin, extent) == if wrap(coordinate - origin, extent)
            == extent - 1 {
            0
        } else {
            wrap(coordinate - origin, extent) + 1
        },
        wrap(wrap(coordinate, extent) - 1 - origin, extent) == if wrap(coordinate - origin, extent)
            == 0 {
            extent - 1
        } else {
            wrap(coordinate - origin, extent) - 1
        },
{
    let q = coordinate / extent;
    lemma_fundamental_div_mod(coordinate, extent);
    assert(extent * q == q * extent) by (nonlinear_arith);
    assert((-q) * extent == -(q * extent)) by (nonlinear_arith);
    lemma_wrap_in_range(coordinate - origin, extent);
    lemma_wrap_periodic(coordinate - origin, -q, extent);
    lemma_wrap_periodic(coordinate + 1 - origin, -q, extent);
    lemma_wrap_periodic(coordinate - 1 - origin, -q, extent);
    lemma_wrap_step(coordinate - origin, extent);
    assert(wrap(coordinate, extent) - origin == coordinate - origin + (-q) * extent);
    assert(wrap(coordinate, extent) + 1 - origin == coordinate + 1 - origin + (-q) * extent);
    assert(wrap(coordinate, extent) - 1 - origin == coordinate - 1 - origin + (-q) * extent);
    assert(coordinate + 1 - origin == coordinate - origin + 1);
    assert(coordinate - 1 - origin == coordinate - origin - 1);
}

/// A coordinate wraps to the place that lies `offset` past `origin` exactly
/// when it lies `offset` past `origin` itself, going round the axis.
pub proof fn lemma_wrap_meets(coordinate: int, origin: int, offset: int, extent: int)
    requires
        0 <= offset < extent,
    ensures
        wrap(coordinate, extent) == wrap(origin + offset, extent) <==> wrap(
            coordinate - origin,
            extent,
        ) == offset,
{
    lemma_mod_equivalence(coordinate, origin + offset, extent);
    lemma_mod_equivalence(coordinate - origin, offset, extent);
    lemma_wrap_of_in_range(offset, extent);
}

/// Inside the grid the index is row-major, and the row and the column can be
/// read back from it by division.
pub proof fn lemma_torus_index_row_major(width: int, height: int, row: int, column: int)
    requires
        0 <= row < height,
        0 <= column < width,
    ensures
        torus_index(width, height, row, column) == row * width + column,
        (row * width + column) / width == row,
        (row * width + column) % width == column,
        0 <= row * width + column < width * height,
{
    lemma_wrap_of_in_range(row, height);
    lemma_wrap_of_in_range(column, width);
    lemma_fundamental_div_mod_converse(row * width + column, width, row, column);
    lemma_torus_index_in_range(width, height, row, column);
}

/// Every index of the grid is the row-major index of its own row and column.
pub proof fn lemma_index_splits(width: int, height: int, index: int)
    requires
        width > 0,
        0 <= index < width * height,
    ensures
        0 <= index / width < height,
        0 <= index % width < width,
        torus_index(width, height, index / width, index % width) == index,
{
    let row = index / width;
    let column = index % width;
    lemma_fundamental_div_mod(index, width);
    lemma_mod_bound(index, width);
    assert(0 <= row < height) by (nonlinear_arith)
        requires
            index == width * row + column,
            0 <= column < width,
            0 <= index < width * height,
            width > 0,
    ;
    assert(width * row == row * width) by (nonlinear_arith);
    lemma_torus_index_row_major(width, height, row, column);
}

/// Moving a whole number of grid heights down and of grid widths across
/// arrives at the same cell.
pub proof fn lemma_torus_index_periodic(
    width: int,
    height: int,
    row: int,
    column: int,
    turns: int,
)
    requires
        width > 0,
        height > 0,
    ensures
        torus_index(width, height, row + turns * height, column + turns * width) == torus_index(
            width,
            height,
            row,
            column,
        ),
{
    lemma_wrap_periodic(row, turns, height);
    lemma_wrap_periodic(column, turns, width);
}

/// Wraps one coordinate onto an axis of `extent` cells.
///
/// The machine remainder takes the sign of the dividend, so the remainder is
/// shifted up by one extent and reduced a second time.
pub fn wrap_coordinate(coordinate: i64, extent: u32) -> (wrapped: u32)
    requires
        extent > 0,
    ensures
        wrapped == wrap(coordinate as int, extent as int),
{
    let extent_wide: i64 = extent as i64;
    let signed_remainder: i64 = coordinate % extent_wide;
    let wrapped: i64 = (signed_remainder + extent_wide) % extent_wide;
    proof {
        let c = coordinate as int;
        let e = extent as int;
        lemma_mod_bound(c, e);
        if c >= 0 {
            lemma_wrap_periodic(signed_remainder as int, 1, e);
            lemma_wrap_of_in_range(signed_remainder as int, e);
        } else {
            let m = (-c) % e;
            lemma_fundamental_div_mod(-c, e);
            lemma_mod_bound(-c, e);
            let q = (-c) / e;
            assert(c == (-q - 1) * e + (e - m)) by (nonlinear_arith)
                requires
                    -c == e * q + m,
            ;
            if m == 0 {
                lemma_wrap_periodic(0, 1, e);
                lemma_wrap_periodic(0, -q, e);
                assert(0 + (-q) * e == c) by (nonlinear_arith)
                    requires
                        -c == e * q + m,
                        m == 0,
                ;
            } else {
                lemma_wrap_of_in_range(e - m, e);
                lemma_wrap_periodic(e - m, -q - 1, e);
            }
        }
    }
    wrapped as u32
}

} // verus!
