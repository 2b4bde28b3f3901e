//! General properties of the engine, stated and proved as standalone facts.

use vstd::prelude::*;
use crate::cell::{Cell, cell_weight};
use crate::universe::{
    Universe, covers_box, covers_pattern, lemma_wrap_negative, stamped, wrap_index,
};

verus! {

/// Dimension invariant: a well-formed universe holds exactly
/// `width * height` cells. Every operation of `Universe` both requires and
/// ensures well-formedness, so this length equation holds after any
/// sequence of mutating calls.
pub proof fn lemma_dimension_invariant(u: Universe)
    requires
        u.wf(),
    ensures
        u.grid().len() == u.spec_width() * u.spec_height(),
{
}

/// Toroidal indexing: on a torus of height `h` and width `w`, the neighbor
/// of `(0, 0)` at offset `(-1, -1)`, wrapped, is `(h - 1, w - 1)`.
pub proof fn lemma_toroidal_wrap(h: int, w: int)
    requires
        1 <= h,
        1 <= w,
    ensures
        wrap_index(0 - 1, h) == h - 1,
        wrap_index(0 - 1, w) == w - 1,
{
    lemma_wrap_negative(-1, h);
    lemma_wrap_negative(-1, w);
}

/// The same fact read off a universe's neighbor lookup: the weight that
/// cell `(0, 0)`'s neighbor count takes from offset `(-1, -1)` is the
/// weight of the cell in the last row and last column.
pub proof fn lemma_toroidal_neighbor(u: Universe)
    requires
        u.wf(),
    ensures
        u.alive_weight(-1, -1) == cell_weight(
            u.cell_at(u.spec_height() - 1, u.spec_width() - 1),
        ),
{
    lemma_toroidal_wrap(u.spec_height(), u.spec_width());
}

/// Pattern overlay clears its footprint: after stamping, a cell inside the
/// pattern's wrapped bounding box that no pattern offset lands on is
/// `Dead`, whatever state it held before the stamp.
pub proof fn lemma_stamp_clears_footprint(
    pre: Universe,
    post: Universe,
    offsets: Seq<(u32, u32)>,
    box_h: int,
    box_w: int,
    start_row: int,
    start_col: int,
    r: int,
    c: int,
)
    requires
        stamped(pre, post, offsets, box_h, box_w, start_row, start_col),
        0 <= r < pre.spec_height(),
        0 <= c < pre.spec_width(),
        covers_box(
            pre.spec_height(),
            pre.spec_width(),
            start_row,
            start_col,
            box_h,
            box_w,
            r,
            c,
        ),
        !covers_pattern(
            pre.spec_height(),
            pre.spec_width(),
            offsets,
            start_row,
            start_col,
            r,
            c,
        ),
    ensures
        post.cell_at(r, c) == Cell::Dead,
{
}

} // verus!
