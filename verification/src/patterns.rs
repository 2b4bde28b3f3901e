//! The predefined patterns: fixed tables of (row, column) offsets from an
//! anchor cell, and the bounding box each pattern is stamped into.

use vstd::prelude::*;

verus! {

/// Bounding box of the glider: 3 rows.
pub const GLIDER_BOX_ROWS: u32 = 3;

/// Bounding box of the glider: 3 columns.
pub const GLIDER_BOX_COLS: u32 = 3;

/// Bounding box of the pulsar: 17 rows.
pub const PULSAR_BOX_ROWS: u32 = 17;

/// Bounding box of the pulsar: 17 columns.
pub const PULSAR_BOX_COLS: u32 = 17;

/// Bounding box of the Gosper glider gun: 11 rows.
pub const GUN_BOX_ROWS: u32 = 11;

/// Bounding box of the Gosper glider gun: 38 columns.
pub const GUN_BOX_COLS: u32 = 38;

/// The glider's five live cells, as offsets from the anchor.
pub open spec fn glider_offsets() -> Seq<(u32, u32)> {
    seq![(0u32, 1u32), (1u32, 2u32), (2u32, 0u32), (2u32, 1u32), (2u32, 2u32)]
}

/// The pulsar's live cells, as offsets from the anchor: a symmetric
/// two-lobe figure, the bottom lobe mirroring the top.
pub open spec fn pulsar_offsets() -> Seq<(u32, u32)> {
    seq![
        (2u32, 4u32),
        (2u32, 5u32),
        (2u32, 6u32),
        (2u32, 10u32),
        (2u32, 11u32),
        (2u32, 12u32),
        (4u32, 2u32),
        (4u32, 7u32),
        (4u32, 9u32),
        (4u32, 14u32),
        (5u32, 2u32),
        (5u32, 7u32),
        (5u32, 9u32),
        (5u32, 14u32),
        (6u32, 2u32),
        (6u32, 7u32),
        (6u32, 9u32),
        (6u32, 14u32),
        (7u32, 4u32),
        (7u32, 5u32),
        (7u32, 6u32),
        (7u32, 10u32),
        (7u32, 11u32),
        (7u32, 12u32),
        (9u32, 4u32),
        (9u32, 5u32),
        (9u32, 6u32),
        (9u32, 10u32),
        (9u32, 11u32),
        (9u32, 12u32),
        (10u32, 2u32),
        (10u32, 7u32),
        (10u32, 9u32),
        (10u32, 14u32),
        (11u32, 2u32),
        (11u32, 7u32),
        (11u32, 9u32),
        (11u32, 14u32),
        (12u32, 2u32),
        (12u32, 7u32),
        (12u32, 9u32),
        (12u32, 14u32),
        (14u32, 4u32),
        (14u32, 5u32),
        (14u32, 6u32),
        (14u32, 10u32),
        (14u32, 11u32),
        (14u32, 12u32),
    ]
}

/// The Gosper glider gun's 36 live cells, as offsets from the anchor.
pub open spec fn gun_offsets() -> Seq<(u32, u32)> {
    seq![
        (1u32, 25u32),
        (2u32, 23u32),
        (2u32, 25u32),
        (3u32, 13u32),
        (3u32, 14u32),
        (3u32, 21u32),
        (3u32, 22u32),
        (3u32, 35u32),
        (3u32, 36u32),
        (4u32, 12u32),
        (4u32, 16u32),
        (4u32, 21u32),
        (4u32, 22u32),
        (4u32, 35u32),
        (4u32, 36u32),
        (5u32, 1u32),
        (5u32, 2u32),
        (5u32, 11u32),
        (5u32, 17u32),
        (5u32, 21u32),
        (5u32, 22u32),
        (6u32, 1u32),
        (6u32, 2u32),
        (6u32, 11u32),
        (6u32, 15u32),
        (6u32, 17u32),
        (6u32, 18u32),
        (6u32, 23u32),
        (6u32, 25u32),
        (7u32, 11u32),
        (7u32, 17u32),
        (7u32, 25u32),
        (8u32, 12u32),
        (8u32, 16u32),
        (9u32, 13u32),
        (9u32, 14u32),
    ]
}

/// Build the glider offset table.
pub fn glider_cells() -> (v: Vec<(u32, u32)>)
    ensures
        v@ == glider_offsets(),
{
    let mut v: Vec<(u32, u32)> = Vec::new();
    v.push((0, 1));
    v.push((1, 2));
    v.push((2, 0));
    v.push((2, 1));
    v.push((2, 2));
    proof {
        assert(v@ =~= glider_offsets());
    }
    v
}

/// Build the pulsar offset table.
pub fn pulsar_cells() -> (v: Vec<(u32, u32)>)
    ensures
        v@ == pulsar_offsets(),
{
    let mut v: Vec<(u32, u32)> = Vec::new();
    v.push((2, 4));
    v.push((2, 5));
    v.push((2, 6));
    v.push((2, 10));
    v.push((2, 11));
    v.push((2, 12));
    v.push((4, 2));
    v.push((4, 7));
    v.push((4, 9));
    v.push((4, 14));
    v.push((5, 2));
    v.push((5, 7));
    v.push((5, 9));
    v.push((5, 14));
    v.push((6, 2));
    v.push((6, 7));
    v.push((6, 9));
    v.push((6, 14));
    v.push((7, 4));
    v.push((7, 5));
    v.push((7, 6));
    v.push((7, 10));
    v.push((7, 11));
    v.push((7, 12));
    v.push((9, 4));
    v.push((9, 5));
    v.push((9, 6));
    v.push((9, 10));
    v.push((9, 11));
    v.push((9, 12));
    v.push((10, 2));
    v.push((10, 7));
    v.push((10, 9));
    v.push((10, 14));
    v.push((11, 2));
    v.push((11, 7));
    v.push((11, 9));
    v.push((11, 14));
    v.push((12, 2));
    v.push((12, 7));
    v.push((12, 9));
    v.push((12, 14));
    v.push((14, 4));
    v.push((14, 5));
    v.push((14, 6));
    v.push((14, 10));
    v.push((14, 11));
    v.push((14, 12));
    proof {
        assert(v@ =~= pulsar_offsets());
    }
    v
}

/// Build the Gosper glider gun offset table.
pub fn gun_cells() -> (v: Vec<(u32, u32)>)
    ensures
        v@ == gun_offsets(),
{
    let mut v: Vec<(u32, u32)> = Vec::new();
    v.push((1, 25));
    v.push((2, 23));
    v.push((2, 25));
    v.push((3, 13));
    v.push((3, 14));
    v.push((3, 21));
    v.push((3, 22));
    v.push((3, 35));
    v.push((3, 36));
    v.push((4, 12));
    v.push((4, 16));
    v.push((4, 21));
    v.push((4, 22));
    v.push((4, 35));
    v.push((4, 36));
    v.push((5, 1));
    v.push((5, 2));
    v.push((5, 11));
    v.push((5, 17));
    v.push((5, 21));
    v.push((5, 22));
    v.push((6, 1));
    v.push((6, 2));
    v.push((6, 11));
    v.push((6, 15));
    v.push((6, 17));
    v.push((6, 18));
    v.push((6, 23));
    v.push((6, 25));
    v.push((7, 11));
    v.push((7, 17));
    v.push((7, 25));
    v.push((8, 12));
    v.push((8, 16));
    v.push((9, 13));
    v.push((9, 14));
    proof {
        assert(v@ =~= gun_offsets());
    }
    v
}

} // verus!
