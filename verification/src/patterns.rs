//! The patterns that can be stamped into a universe: square bitmaps in
//! row-major order, in which any value but zero marks a live cell.

use vstd::prelude::*;

verus! {

/// The side of the glider's bitmap.
pub const GLIDER_SIZE: u8 = 3;

/// The side of the pulsar's bitmap.
pub const PULSAR_SIZE: u8 = 15;

/// The glider, turned clockwise by `orientation` quarter turns. Any
/// orientation but 1, 2 and 3 is the glider as it stands.
pub open spec fn glider_bitmap(orientation: u8) -> Seq<u8> {
    if orientation == 1 {
        seq![
            1, 0, 0,
            1, 0, 1,
            1, 1, 0,
        ]
    } else if orientation == 2 {
        seq![
            1, 1, 1,
            1, 0, 0,
            0, 1, 0,
        ]
    } else if orientation == 3 {
        seq![
            0, 1, 1,
            1, 0, 1,
            0, 0, 1,
        ]
    } else {
        seq![
            0, 1, 0,
            0, 0, 1,
            1, 1, 1,
        ]
    }
}

/// The bitmap of the glider in the given orientation.
pub fn glider(orientation: u8) -> (bitmap: Vec<u8>)
    ensures
        bitmap@ == glider_bitmap(orientation),
        bitmap@.len() == GLIDER_SIZE * GLIDER_SIZE,
{
    match orientation {
        1 => vec![
            1, 0, 0,
            1, 0, 1,
            1, 1, 0,
        ],
        2 => vec![
            1, 1, 1,
            1, 0, 0,
            0, 1, 0,
        ],
        3 => vec![
            0, 1, 1,
            1, 0, 1,
            0, 0, 1,
        ],
        _ => vec![
            0, 1, 0,
            0, 0, 1,
            1, 1, 1,
        ],
    }
}

/// The pulsar, with a margin of one dead cell on every side.
pub open spec fn pulsar_bitmap() -> Seq<u8> {
    seq![
        0, 0, 0, 0, 0, 0, 0, 0, 0, 0, 0, 0, 0, 0, 0,
        0, 0, 0, 1, 1, 1, 0, 0, 0, 1, 1, 1, 0, 0, 0,
        0, 0, 0, 0, 0, 0, 0, 0, 0, 0, 0, 0, 0, 0, 0,
        0, 1, 0, 0, 0, 0, 1, 0, 1, 0, 0, 0, 0, 1, 0,
        0, 1, 0, 0, 0, 0, 1, 0, 1, 0, 0, 0, 0, 1, 0,
        0, 1, 0, 0, 0, 0, 1, 0, 1, 0, 0, 0, 0, 1, 0,
        0, 0, 0, 1, 1, 1, 0, 0, 0, 1, 1, 1, 0, 0, 0,
        0, 0, 0, 0, 0, 0, 0, 0, 0, 0, 0, 0, 0, 0, 0,
        0, 0, 0, 1, 1, 1, 0, 0, 0, 1, 1, 1, 0, 0, 0,
        0, 1, 0, 0, 0, 0, 1, 0, 1, 0, 0, 0, 0, 1, 0,
        0, 1, 0, 0, 0, 0, 1, 0, 1, 0, 0, 0, 0, 1, 0,
        0, 1, 0, 0, 0, 0, 1, 0, 1, 0, 0, 0, 0, 1, 0,
        0, 0, 0, 0, 0, 0, 0, 0, 0, 0, 0, 0, 0, 0, 0,
        0, 0, 0, 1, 1, 1, 0, 0, 0, 1, 1, 1, 0, 0, 0,
        0, 0, 0, 0, 0, 0, 0, 0, 0, 0, 0, 0, 0, 0, 0,
    ]
}

/// The bitmap of the pulsar.
pub fn pulsar() -> (bitmap: Vec<u8>)
    ensures
        bitmap@ == pulsar_bitmap(),
        bitmap@.len() == PULSAR_SIZE * PULSAR_SIZE,
{
    vec![
        0, 0, 0, 0, 0, 0, 0, 0, 0, 0, 0, 0, 0, 0, 0,
        0, 0, 0, 1, 1, 1, 0, 0, 0, 1, 1, 1, 0, 0, 0,
        0, 0, 0, 0, 0, 0, 0, 0, 0, 0, 0, 0, 0, 0, 0,
        0, 1, 0, 0, 0, 0, 1, 0, 1, 0, 0, 0, 0, 1, 0,
        0, 1, 0, 0, 0, 0, 1, 0, 1, 0, 0, 0, 0, 1, 0,
        0, 1, 0, 0, 0, 0, 1, 0, 1, 0, 0, 0, 0, 1, 0,
        0, 0, 0, 1, 1, 1, 0, 0, 0, 1, 1, 1, 0, 0, 0,
        0, 0, 0, 0, 0, 0, 0, 0, 0, 0, 0, 0, 0, 0, 0,
        0, 0, 0, 1, 1, 1, 0, 0, 0, 1, 1, 1, 0, 0, 0,
        0, 1, 0, 0, 0, 0, 1, 0, 1, 0, 0, 0, 0, 1, 0,
        0, 1, 0, 0, 0, 0, 1, 0, 1, 0, 0, 0, 0, 1, 0,
        0, 1, 0, 0, 0, 0, 1, 0, 1, 0, 0, 0, 0, 1, 0,
        0, 0, 0, 0, 0, 0, 0, 0, 0, 0, 0, 0, 0, 0, 0,
        0, 0, 0, 1, 1, 1, 0, 0, 0, 1, 1, 1, 0, 0, 0,
        0, 0, 0, 0, 0, 0, 0, 0, 0, 0, 0, 0, 0, 0, 0,
    ]
}

/// The bitmap of side `size` turned clockwise by a quarter: what stood in
/// the first column, read from the bottom up, stands in the first row.
pub open spec fn quarter_turn(bitmap: Seq<u8>, size: int) -> Seq<u8> {
    Seq::new(bitmap.len(), |k: int| bitmap[(size - 1 - k % size) * size + k / size])
}

/// Each orientation of the glider is the one before it turned clockwise by
/// a quarter, and the fourth turn brings back the first.
pub proof fn lemma_glider_orientations_are_quarter_turns()
    ensures
        glider_bitmap(1) == quarter_turn(glider_bitmap(0), GLIDER_SIZE as int),
        glider_bitmap(2) == quarter_turn(glider_bitmap(1), GLIDER_SIZE as int),
        glider_bitmap(3) == quarter_turn(glider_bitmap(2), GLIDER_SIZE as int),
        glider_bitmap(0) == quarter_turn(glider_bitmap(3), GLIDER_SIZE as int),
{
    assert(glider_bitmap(1) =~= quarter_turn(glider_bitmap(0), 3));
    assert(glider_bitmap(2) =~= quarter_turn(glider_bitmap(1), 3));
    assert(glider_bitmap(3) =~= quarter_turn(glider_bitmap(2), 3));
    assert(glider_bitmap(0) =~= quarter_turn(glider_bitmap(3), 3));
}

/// An orientation past 3 is taken for orientation 0.
pub proof fn lemma_glider_fallback(orientation: u8)
    requires
        orientation > 3,
    ensures
        glider_bitmap(orientation) == glider_bitmap(0),
{
}

/// The pulsar looks the same after a quarter turn.
pub proof fn lemma_pulsar_is_symmetric()
    ensures
        pulsar_bitmap() == quarter_turn(pulsar_bitmap(), PULSAR_SIZE as int),
{
    assert(pulsar_bitmap() =~= quarter_turn(pulsar_bitmap(), 15));
}

} // verus!
