//! The toroidal grid and the simulation engine that operates on it.

use vstd::prelude::*;
use vstd::arithmetic::div_mod::{
    lemma_fundamental_div_mod_converse, lemma_mod_add_multiples_vanish, lemma_small_mod,
};
use vstd::string::StringExecFns;
use crate::cell::{Cell, cell_weight, next_state, toggled};
use crate::patterns::{
    GLIDER_BOX_COLS, GLIDER_BOX_ROWS, GUN_BOX_COLS, GUN_BOX_ROWS, PULSAR_BOX_COLS, PULSAR_BOX_ROWS,
    glider_cells, glider_offsets, gun_cells, gun_offsets, pulsar_cells, pulsar_offsets,
};

verus! {

/// Wrap the coordinate `i` onto a torus of extent `m` (`m > 0`): the result
/// is the unique representative of `i` modulo `m` in `[0, m)`, so row `-1`
/// wraps to row `m - 1` and row `m` wraps to row `0`.
pub open spec fn wrap_index(i: int, m: int) -> int {
    i % m
}

/// For an in-range coordinate, wrapping changes nothing.
pub proof fn lemma_wrap_in_range(i: int, m: int)
    requires
        0 <= i < m,
    ensures
        wrap_index(i, m) == i,
{
    lemma_small_mod(i as nat, m as nat);
}

/// A coordinate one short turn below the range wraps to the top of it:
/// for `-m <= i < 0`, the wrapped coordinate is `i + m`.
pub proof fn lemma_wrap_negative(i: int, m: int)
    requires
        0 < m,
        -m <= i < 0,
    ensures
        wrap_index(i, m) == i + m,
{
    lemma_mod_add_multiples_vanish(i, m);
    lemma_small_mod((i + m) as nat, m as nat);
}

/// A coordinate one short turn past the range wraps to the bottom of it:
/// for `m <= i < 2 * m`, the wrapped coordinate is `i - m`.
pub proof fn lemma_wrap_past_end(i: int, m: int)
    requires
        0 < m,
        m <= i < 2 * m,
    ensures
        wrap_index(i, m) == i - m,
{
    lemma_mod_add_multiples_vanish(i - m, m);
    lemma_small_mod((i - m) as nat, m as nat);
}

/// Row-major flat addressing is bounded: a cell at row `r < h`, column
/// `c < w` lives strictly below offset `h * w`.
pub proof fn lemma_flat_index_bound(r: int, c: int, h: int, w: int)
    by (nonlinear_arith)
    requires
        0 <= r < h,
        0 <= c < w,
    ensures
        0 <= r * w + c < h * w,
{
}

/// Row-major flat addressing is injective over in-range columns: two
/// coordinate pairs with the same flat offset are the same pair.
pub proof fn lemma_flat_index_injective(r1: int, c1: int, r2: int, c2: int, w: int)
    by (nonlinear_arith)
    requires
        0 <= c1 < w,
        0 <= c2 < w,
        r1 * w + c1 == r2 * w + c2,
    ensures
        r1 == r2,
        c1 == c2,
{
}

/// The cell a flat index `i` starts in: `Alive` on indices divisible by 2
/// or by 7, `Dead` elsewhere. This is the deterministic seed of `new`.
pub open spec fn seed_cell(i: int) -> Cell {
    if i % 2 == 0 || i % 7 == 0 {
        Cell::Alive
    } else {
        Cell::Dead
    }
}

/// Whether the wrapped footprint of a `box_h` x `box_w` rectangle anchored
/// at `(start_row, start_col)` covers the in-range cell `(r, c)` of an
/// `h` x `w` torus: some offset `(dr, dc)` inside the rectangle lands on
/// `(r, c)` once both coordinates are wrapped.
pub open spec fn covers_box(
    h: int,
    w: int,
    start_row: int,
    start_col: int,
    box_h: int,
    box_w: int,
    r: int,
    c: int,
) -> bool {
    exists|dr: int, dc: int|
        #![trigger wrap_index(start_row + dr, h), wrap_index(start_col + dc, w)]
        0 <= dr < box_h && 0 <= dc < box_w && wrap_index(start_row + dr, h) == r && wrap_index(
            start_col + dc,
            w,
        ) == c
}

/// Whether some offset of the pattern table `offsets`, anchored at
/// `(start_row, start_col)` and wrapped, lands on the in-range cell
/// `(r, c)` of an `h` x `w` torus.
pub open spec fn covers_pattern(
    h: int,
    w: int,
    offsets: Seq<(u32, u32)>,
    start_row: int,
    start_col: int,
    r: int,
    c: int,
) -> bool {
    exists|k: int|
        0 <= k < offsets.len() && wrap_index(start_row + #[trigger] offsets[k].0, h) == r
            && wrap_index(start_col + offsets[k].1, w) == c
}

/// The state a cell `(r, c)` holds after the pattern `offsets` with
/// bounding box `box_h` x `box_w` is stamped on `pre` at the anchor
/// `(start_row, start_col)`: cells some pattern offset lands on are
/// `Alive`, all other cells of the wrapped bounding box are cleared to
/// `Dead`, and cells outside the footprint keep their prior state.
pub open spec fn stamp_result(
    pre: Universe,
    offsets: Seq<(u32, u32)>,
    box_h: int,
    box_w: int,
    start_row: int,
    start_col: int,
    r: int,
    c: int,
) -> Cell {
    if covers_pattern(pre.spec_height(), pre.spec_width(), offsets, start_row, start_col, r, c) {
        Cell::Alive
    } else if covers_box(
        pre.spec_height(),
        pre.spec_width(),
        start_row,
        start_col,
        box_h,
        box_w,
        r,
        c,
    ) {
        Cell::Dead
    } else {
        pre.cell_at(r, c)
    }
}

/// How stamping transforms the whole grid: dimensions unchanged and every
/// cell as `stamp_result` gives it.
pub open spec fn stamped(
    pre: Universe,
    post: Universe,
    offsets: Seq<(u32, u32)>,
    box_h: int,
    box_w: int,
    start_row: int,
    start_col: int,
) -> bool {
    &&& post.spec_width() == pre.spec_width()
    &&& post.spec_height() == pre.spec_height()
    &&& forall|r: int, c: int|
        0 <= r < pre.spec_height() && 0 <= c < pre.spec_width() ==> #[trigger] post.cell_at(r, c)
            == stamp_result(pre, offsets, box_h, box_w, start_row, start_col, r, c)
}

/// The glyph one cell renders as in the text form.
pub open spec fn glyph(c: Cell) -> char {
    match c {
        Cell::Dead => '◻',
        Cell::Alive => '◼',
    }
}

/// The Game of Life world: a `width` x `height` grid of cells stored
/// row-major in one flat vector, with toroidal (edge-wrapping) adjacency.
///
/// Both dimensions must stay positive: neighbor lookups wrap coordinates
/// modulo each dimension, and a zero extent would leave them undefined, so
/// positive dimensions are a documented precondition of construction and
/// resizing rather than a guarded error.
pub struct Universe {
    width: u32,
    height: u32,
    cells: Vec<Cell>,
}

impl Universe {
    /// The logical width, as a mathematical integer.
    pub closed spec fn spec_width(self) -> int {
        self.width as int
    }

    /// The logical height, as a mathematical integer.
    pub closed spec fn spec_height(self) -> int {
        self.height as int
    }

    /// The cell contents, row-major.
    pub closed spec fn grid(self) -> Seq<Cell> {
        self.cells@
    }

    /// Well-formedness: both dimensions are positive and the flat cell
    /// sequence has exactly `width * height` entries. Every operation of the
    /// engine preserves this invariant.
    pub open spec fn wf(self) -> bool {
        &&& 1 <= self.spec_width()
        &&& 1 <= self.spec_height()
        &&& self.grid().len() == self.spec_width() * self.spec_height()
    }

    /// The cell at row `r`, column `c` (both already in range): row-major
    /// flat addressing at offset `r * width + c`.
    pub open spec fn cell_at(self, r: int, c: int) -> Cell {
        self.grid()[r * self.spec_width() + c]
    }

    /// The weight (0 or 1) of the cell reached from a possibly out-of-range
    /// coordinate pair by wrapping each coordinate onto the torus.
    pub open spec fn alive_weight(self, r: int, c: int) -> int {
        cell_weight(
            self.cell_at(
                wrap_index(r, self.spec_height()),
                wrap_index(c, self.spec_width()),
            ),
        )
    }

    /// The number of live cells among the eight toroidal neighbors of
    /// `(r, c)`: all offsets in `{-1,0,1} x {-1,0,1}` except `(0,0)`, each
    /// wrapped modulo the respective dimension.
    pub open spec fn live_neighbor_count_spec(self, r: int, c: int) -> int {
        self.alive_weight(r - 1, c - 1) + self.alive_weight(r - 1, c) + self.alive_weight(
            r - 1,
            c + 1,
        ) + self.alive_weight(r, c - 1) + self.alive_weight(r, c + 1) + self.alive_weight(
            r + 1,
            c - 1,
        ) + self.alive_weight(r + 1, c) + self.alive_weight(r + 1, c + 1)
    }

    /// Construct the initial world: 64 x 64, with the deterministic seed
    /// `seed_cell` (alive exactly on flat indices divisible by 2 or by 7).
    pub fn new() -> (u: Universe)
        ensures
            u.wf(),
            u.spec_width() == 64,
            u.spec_height() == 64,
            forall|i: int| 0 <= i < u.grid().len() ==> #[trigger] u.grid()[i] == seed_cell(i),
    {
        let mut cells: Vec<Cell> = Vec::new();
        let mut i: usize = 0;
        while i < 4096
            invariant
                i <= 4096,
                cells@.len() == i,
                forall|k: int| 0 <= k < i ==> cells@[k] == seed_cell(k),
            decreases 4096 - i,
        {
            let cell = if i % 2 == 0 || i % 7 == 0 {
                Cell::Alive
            } else {
                Cell::Dead
            };
            cells.push(cell);
            i = i + 1;
        }
        Universe { width: 64, height: 64, cells }
    }

    /// The current width.
    pub fn width(&self) -> (w: u32)
        ensures
            w as int == self.spec_width(),
    {
        self.width
    }

    /// The current height.
    pub fn height(&self) -> (h: u32)
        ensures
            h as int == self.spec_height(),
    {
        self.height
    }

    /// A read-only view of the flat cell sequence, row-major. The borrow is
    /// valid only until the next mutating call: mutators may rebuild the
    /// underlying vector.
    pub fn cells(&self) -> (r: &Vec<Cell>)
        ensures
            r@ == self.grid(),
    {
        &self.cells
    }

    /// The flat cell sequence fits in memory, so its length is bounded by
    /// the machine word.
    proof fn lemma_len_bounded(self)
        ensures
            self.grid().len() <= usize::MAX,
    {
        broadcast use vstd::std_specs::vec::axiom_spec_len;

        assert(self.cells.len() <= usize::MAX);
    }

    /// The flat offset of the in-range cell `(row, col)`.
    fn index_of(&self, row: u32, col: u32) -> (idx: usize)
        requires
            self.wf(),
            row < self.spec_height(),
            col < self.spec_width(),
        ensures
            idx == row * self.spec_width() + col,
            idx < self.grid().len(),
    {
        proof {
            self.lemma_len_bounded();
            lemma_flat_index_bound(row as int, col as int, self.spec_height(), self.spec_width());
        }
        (row as usize) * (self.width as usize) + (col as usize)
    }

    /// Rebuild the cell sequence as all-`Dead` at the current dimensions.
    /// The dimensions alone must be consistent; the old cell sequence may be
    /// stale (resizing sets a dimension first and rebuilds here).
    fn rebuild_dead(&mut self)
        requires
            1 <= old(self).spec_width(),
            1 <= old(self).spec_height(),
            old(self).spec_width() * old(self).spec_height() <= usize::MAX,
        ensures
            final(self).wf(),
            final(self).spec_width() == old(self).spec_width(),
            final(self).spec_height() == old(self).spec_height(),
            forall|i: int|
                0 <= i < final(self).grid().len() ==> final(self).grid()[i] == Cell::Dead,
    {
        let n: usize = (self.width as usize) * (self.height as usize);
        let mut cells: Vec<Cell> = Vec::new();
        let mut i: usize = 0;
        while i < n
            invariant
                i <= n,
                cells@.len() == i,
                forall|k: int| 0 <= k < i ==> cells@[k] == Cell::Dead,
            decreases n - i,
        {
            cells.push(Cell::Dead);
            i = i + 1;
        }
        self.cells = cells;
    }

    /// Set the width of the universe. Resets all cells to the dead state:
    /// this is a full reconstruction at the new dimensions, never a partial
    /// resize.
    pub fn set_width(&mut self, width: u32)
        requires
            old(self).wf(),
            1 <= width,
            width * old(self).spec_height() <= usize::MAX,
        ensures
            final(self).wf(),
            final(self).spec_width() == width,
            final(self).spec_height() == old(self).spec_height(),
            forall|i: int|
                0 <= i < final(self).grid().len() ==> final(self).grid()[i] == Cell::Dead,
    {
        self.width = width;
        self.rebuild_dead();
    }

    /// Set the height of the universe. Resets all cells to the dead state:
    /// this is a full reconstruction at the new dimensions, never a partial
    /// resize.
    pub fn set_height(&mut self, height: u32)
        requires
            old(self).wf(),
            1 <= height,
            old(self).spec_width() * height <= usize::MAX,
        ensures
            final(self).wf(),
            final(self).spec_width() == old(self).spec_width(),
            final(self).spec_height() == height,
            forall|i: int|
                0 <= i < final(self).grid().len() ==> final(self).grid()[i] == Cell::Dead,
    {
        self.height = height;
        self.rebuild_dead();
    }

    /// Set every cell to `Dead`, dimensions unchanged.
    pub fn clear(&mut self)
        requires
            old(self).wf(),
        ensures
            final(self).wf(),
            final(self).spec_width() == old(self).spec_width(),
            final(self).spec_height() == old(self).spec_height(),
            forall|i: int|
                0 <= i < final(self).grid().len() ==> final(self).grid()[i] == Cell::Dead,
    {
        proof {
            self.lemma_len_bounded();
        }
        self.rebuild_dead();
    }

    /// Flip the cell at `(row, column)` between `Alive` and `Dead`. The
    /// coordinates must already be in range: this entry point addresses the
    /// cell directly, without the wraparound used for neighbor lookups, so
    /// out-of-range coordinates are excluded by precondition.
    pub fn toggle_cell(&mut self, row: u32, column: u32)
        requires
            old(self).wf(),
            row < old(self).spec_height(),
            column < old(self).spec_width(),
        ensures
            final(self).wf(),
            final(self).spec_width() == old(self).spec_width(),
            final(self).spec_height() == old(self).spec_height(),
            final(self).cell_at(row as int, column as int) == toggled(
                old(self).cell_at(row as int, column as int),
            ),
            forall|r: int, c: int|
                0 <= r < old(self).spec_height() && 0 <= c < old(self).spec_width() && !(r == row
                    && c == column) ==> final(self).cell_at(r, c) == old(self).cell_at(r, c),
    {
        let idx = self.index_of(row, column);
        self.cells[idx].toggle();
        proof {
            assert forall|r: int, c: int|
                0 <= r < old(self).spec_height() && 0 <= c < old(self).spec_width() && !(r == row
                    && c == column) implies self.cell_at(r, c) == old(self).cell_at(r, c) by {
                if r * old(self).spec_width() + c == idx {
                    lemma_flat_index_injective(
                        r,
                        c,
                        row as int,
                        column as int,
                        old(self).spec_width(),
                    );
                } else {
                    lemma_flat_index_bound(r, c, old(self).spec_height(), old(self).spec_width());
                }
            }
        }
    }

    /// The weight (0 or 1) of the in-range cell `(row, col)`.
    fn weight_at(&self, row: u32, col: u32) -> (wt: u8)
        requires
            self.wf(),
            row < self.spec_height(),
            col < self.spec_width(),
        ensures
            wt == cell_weight(self.cell_at(row as int, col as int)),
    {
        let idx = self.index_of(row, col);
        if self.cells[idx] == Cell::Alive {
            1
        } else {
            0
        }
    }

    /// Count the live cells among the eight toroidal neighbors of the
    /// in-range cell `(row, col)`.
    fn live_neighbor_count(&self, row: u32, col: u32) -> (n: u8)
        requires
            self.wf(),
            row < self.spec_height(),
            col < self.spec_width(),
        ensures
            n == self.live_neighbor_count_spec(row as int, col as int),
    {
        let row_up = if row == 0 {
            self.height - 1
        } else {
            row - 1
        };
        let row_down = if row + 1 == self.height {
            0
        } else {
            row + 1
        };
        let col_left = if col == 0 {
            self.width - 1
        } else {
            col - 1
        };
        let col_right = if col + 1 == self.width {
            0
        } else {
            col + 1
        };
        proof {
            let h = self.spec_height();
            let w = self.spec_width();
            if row == 0 {
                lemma_wrap_negative(row as int - 1, h);
            } else {
                lemma_wrap_in_range(row as int - 1, h);
            }
            if row as int + 1 == h {
                lemma_wrap_past_end(row as int + 1, h);
            } else {
                lemma_wrap_in_range(row as int + 1, h);
            }
            lemma_wrap_in_range(row as int, h);
            if col == 0 {
                lemma_wrap_negative(col as int - 1, w);
            } else {
                lemma_wrap_in_range(col as int - 1, w);
            }
            if col as int + 1 == w {
                lemma_wrap_past_end(col as int + 1, w);
            } else {
                lemma_wrap_in_range(col as int + 1, w);
            }
            lemma_wrap_in_range(col as int, w);
        }
        self.weight_at(row_up, col_left) + self.weight_at(row_up, col) + self.weight_at(
            row_up,
            col_right,
        ) + self.weight_at(row, col_left) + self.weight_at(row, col_right) + self.weight_at(
            row_down,
            col_left,
        ) + self.weight_at(row_down, col) + self.weight_at(row_down, col_right)
    }

    /// The state of cell `(r, c)` after one generation step: the transition
    /// rule applied to its pre-step state and its pre-step live neighbor
    /// count.
    pub open spec fn tick_cell(self, r: int, c: int) -> Cell {
        next_state(self.cell_at(r, c), self.live_neighbor_count_spec(r, c))
    }

    /// Advance the simulation by one generation. Every cell is updated
    /// simultaneously: all neighbor counts read the pre-step state, and the
    /// grid is replaced by the freshly computed next generation in one swap.
    pub fn tick(&mut self)
        requires
            old(self).wf(),
        ensures
            final(self).wf(),
            final(self).spec_width() == old(self).spec_width(),
            final(self).spec_height() == old(self).spec_height(),
            forall|r: int, c: int|
                0 <= r < old(self).spec_height() && 0 <= c < old(self).spec_width()
                    ==> final(self).cell_at(r, c) == old(self).tick_cell(r, c),
    {
        let h = self.height;
        let w = self.width;
        let mut next: Vec<Cell> = Vec::new();
        let mut row: u32 = 0;
        while row < h
            invariant
                *self == *old(self),
                self.wf(),
                h as int == self.spec_height(),
                w as int == self.spec_width(),
                row <= h,
                next@.len() == row as int * w as int,
                forall|r: int, c: int|
                    0 <= r < row && 0 <= c < w ==> next@[r * (w as int) + c] == self.tick_cell(
                        r,
                        c,
                    ),
            decreases h - row,
        {
            let mut col: u32 = 0;
            while col < w
                invariant
                    *self == *old(self),
                    self.wf(),
                    h as int == self.spec_height(),
                    w as int == self.spec_width(),
                    row < h,
                    col <= w,
                    next@.len() == row as int * w as int + col as int,
                    forall|r: int, c: int|
                        0 <= r < row && 0 <= c < w ==> next@[r * (w as int) + c] == self.tick_cell(
                            r,
                            c,
                        ),
                    forall|c: int|
                        0 <= c < col ==> next@[row as int * (w as int) + c] == self.tick_cell(
                            row as int,
                            c,
                        ),
                decreases w - col,
            {
                let idx = self.index_of(row, col);
                let cell = self.cells[idx];
                let live = self.live_neighbor_count(row, col);
                let next_cell = if cell == Cell::Alive {
                    if live < 2 {
                        Cell::Dead
                    } else if live <= 3 {
                        Cell::Alive
                    } else {
                        Cell::Dead
                    }
                } else {
                    if live == 3 {
                        Cell::Alive
                    } else {
                        Cell::Dead
                    }
                };
                next.push(next_cell);
                proof {
                    assert forall|r: int, c: int|
                        0 <= r < row && 0 <= c < w implies next@[r * (w as int) + c]
                        == self.tick_cell(r, c) by {
                        lemma_flat_index_bound(r, c, row as int, w as int);
                    }
                }
                col = col + 1;
            }
            proof {
                assert((row as int + 1) * (w as int) == row as int * (w as int) + w as int)
                    by (nonlinear_arith);
            }
            row = row + 1;
        }
        self.cells = next;
        proof {
            assert(h as int * w as int == w as int * h as int) by (nonlinear_arith);
            assert forall|r: int, c: int|
                0 <= r < old(self).spec_height() && 0 <= c < old(self).spec_width() implies self
                .cell_at(r, c) == old(self).tick_cell(r, c) by {
                lemma_flat_index_bound(r, c, h as int, w as int);
            }
        }
    }

    /// Fill the grid from one independent draw per cell, row-major. The host
    /// draws a uniform sample from `[0, 1)` for each cell and passes whether
    /// it fell below the target live fraction (0.3); the engine is verified
    /// for every outcome of that source. Dimensions are unchanged.
    pub fn randomize(&mut self, alive_draws: &Vec<bool>)
        requires
            old(self).wf(),
            alive_draws@.len() == old(self).grid().len(),
        ensures
            final(self).wf(),
            final(self).spec_width() == old(self).spec_width(),
            final(self).spec_height() == old(self).spec_height(),
            forall|i: int|
                0 <= i < final(self).grid().len() ==> #[trigger] final(self).grid()[i] == (if alive_draws@[i] {
                    Cell::Alive
                } else {
                    Cell::Dead
                }),
    {
        let n = alive_draws.len();
        let mut next: Vec<Cell> = Vec::new();
        let mut i: usize = 0;
        while i < n
            invariant
                i <= n,
                n == alive_draws@.len(),
                next@.len() == i,
                forall|k: int|
                    0 <= k < i ==> next@[k] == (if alive_draws@[k] {
                        Cell::Alive
                    } else {
                        Cell::Dead
                    }),
            decreases n - i,
        {
            let cell = if alive_draws[i] {
                Cell::Alive
            } else {
                Cell::Dead
            };
            next.push(cell);
            i = i + 1;
        }
        self.cells = next;
    }

    /// The text rendering as a sequence of characters: the rows in order,
    /// each row its cells' glyphs left to right followed by a newline, so
    /// line `r` holds the glyphs of grid row `r`.
    pub open spec fn render_spec(self) -> Seq<char> {
        Seq::new(
            (self.spec_height() * (self.spec_width() + 1)) as nat,
            |i: int|
                if i % (self.spec_width() + 1) == self.spec_width() {
                    '\n'
                } else {
                    glyph(self.cell_at(i / (self.spec_width() + 1), i % (self.spec_width() + 1)))
                },
        )
    }

    /// Produce the text snapshot of the grid: a stateless, row-by-row
    /// projection in which each dead cell renders as one glyph and each live
    /// cell as another, rows separated by line breaks.
    pub fn render(&self) -> (s: String)
        requires
            self.wf(),
        ensures
            s@ == self.render_spec(),
    {
        let h = self.height;
        let w = self.width;
        let mut s = String::new();
        let mut row: u32 = 0;
        while row < h
            invariant
                self.wf(),
                h as int == self.spec_height(),
                w as int == self.spec_width(),
                row <= h,
                s@.len() == row as int * (w as int + 1),
                forall|j: int| 0 <= j < s@.len() ==> s@[j] == self.render_spec()[j],
            decreases h - row,
        {
            let mut col: u32 = 0;
            while col < w
                invariant
                    self.wf(),
                    h as int == self.spec_height(),
                    w as int == self.spec_width(),
                    row < h,
                    col <= w,
                    s@.len() == row as int * (w as int + 1) + col as int,
                    forall|j: int| 0 <= j < s@.len() ==> s@[j] == self.render_spec()[j],
                decreases w - col,
            {
                let idx = self.index_of(row, col);
                let glyph_str = if self.cells[idx] == Cell::Alive {
                    "◼"
                } else {
                    "◻"
                };
                proof {
                    reveal_strlit("◼");
                    reveal_strlit("◻");
                    let w1 = w as int + 1;
                    lemma_flat_index_bound(row as int, col as int, h as int, w1);
                    lemma_fundamental_div_mod_converse(
                        row as int * w1 + col as int,
                        w1,
                        row as int,
                        col as int,
                    );
                }
                s.append(glyph_str);
                col = col + 1;
            }
            proof {
                reveal_strlit("\n");
                let w1 = w as int + 1;
                lemma_flat_index_bound(row as int, w as int, h as int, w1);
                lemma_fundamental_div_mod_converse(
                    row as int * w1 + w as int,
                    w1,
                    row as int,
                    w as int,
                );
                assert((row as int + 1) * w1 == row as int * w1 + w1) by (nonlinear_arith);
            }
            s.append("\n");
            row = row + 1;
        }
        proof {
            assert(s@ =~= self.render_spec());
        }
        s
    }

    /// Clear the wrapped `box_h` x `box_w` rectangle anchored at
    /// `(start_row, start_col)` to `Dead`; every cell outside the wrapped
    /// footprint keeps its state.
    fn clear_area(&mut self, start_row: u32, start_col: u32, box_h: u32, box_w: u32)
        requires
            old(self).wf(),
        ensures
            final(self).wf(),
            final(self).spec_width() == old(self).spec_width(),
            final(self).spec_height() == old(self).spec_height(),
            forall|r: int, c: int|
                0 <= r < old(self).spec_height() && 0 <= c < old(self).spec_width()
                    ==> #[trigger] final(self).cell_at(r, c) == (if covers_box(
                    old(self).spec_height(),
                    old(self).spec_width(),
                    start_row as int,
                    start_col as int,
                    box_h as int,
                    box_w as int,
                    r,
                    c,
                ) {
                    Cell::Dead
                } else {
                    old(self).cell_at(r, c)
                }),
    {
        let h = self.height;
        let w = self.width;
        let ghost h_i = h as int;
        let ghost w_i = w as int;
        let ghost sr = start_row as int;
        let ghost sc = start_col as int;
        let mut dr: u32 = 0;
        while dr < box_h
            invariant
                self.wf(),
                self.spec_width() == old(self).spec_width(),
                self.spec_height() == old(self).spec_height(),
                self.grid().len() == old(self).grid().len(),
                h_i == self.spec_height(),
                w_i == self.spec_width(),
                h == self.spec_height(),
                w == self.spec_width(),
                sr == start_row as int,
                sc == start_col as int,
                dr <= box_h,
                forall|r: int, c: int|
                    0 <= r < h_i && 0 <= c < w_i ==> #[trigger] self.cell_at(r, c) == (if covers_box(
                        h_i,
                        w_i,
                        sr,
                        sc,
                        dr as int,
                        box_w as int,
                        r,
                        c,
                    ) {
                        Cell::Dead
                    } else {
                        old(self).cell_at(r, c)
                    }),
            decreases box_h - dr,
        {
            let mut dc: u32 = 0;
            while dc < box_w
                invariant
                    self.wf(),
                    self.spec_width() == old(self).spec_width(),
                    self.spec_height() == old(self).spec_height(),
                    self.grid().len() == old(self).grid().len(),
                    h_i == self.spec_height(),
                    w_i == self.spec_width(),
                    h == self.spec_height(),
                    w == self.spec_width(),
                    sr == start_row as int,
                    sc == start_col as int,
                    dr < box_h,
                    dc <= box_w,
                    forall|r: int, c: int|
                        0 <= r < h_i && 0 <= c < w_i ==> #[trigger] self.cell_at(r, c) == (if (
                        covers_box(h_i, w_i, sr, sc, dr as int, box_w as int, r, c) || covers_box(
                            h_i,
                            w_i,
                            sr + dr,
                            sc,
                            1,
                            dc as int,
                            r,
                            c,
                        )) {
                            Cell::Dead
                        } else {
                            old(self).cell_at(r, c)
                        }),
                decreases box_w - dc,
            {
                let rr = ((start_row as u64 + dr as u64) % (h as u64)) as u32;
                let cc = ((start_col as u64 + dc as u64) % (w as u64)) as u32;
                proof {
                    assert(rr as int == wrap_index(sr + dr, h_i));
                    assert(cc as int == wrap_index(sc + dc, w_i));
                }
                let idx = self.index_of(rr, cc);
                let ghost prev = *self;
                self.cells[idx] = Cell::Dead;
                proof {
                    assert forall|r: int, c: int|
                        0 <= r < h_i && 0 <= c < w_i implies #[trigger] self.cell_at(r, c) == (if (
                    covers_box(h_i, w_i, sr, sc, dr as int, box_w as int, r, c) || covers_box(
                        h_i,
                        w_i,
                        sr + dr,
                        sc,
                        1,
                        dc as int + 1,
                        r,
                        c,
                    )) {
                        Cell::Dead
                    } else {
                        old(self).cell_at(r, c)
                    }) by {
                        lemma_flat_index_bound(r, c, h_i, w_i);
                        if r == rr as int && c == cc as int {
                            assert(wrap_index(sr + dr + 0, h_i) == r);
                            assert(wrap_index(sc + dc, w_i) == c);
                            assert(covers_box(h_i, w_i, sr + dr, sc, 1, dc as int + 1, r, c));
                        } else {
                            if r * w_i + c == idx as int {
                                lemma_flat_index_injective(r, c, rr as int, cc as int, w_i);
                            }
                            assert(self.cell_at(r, c) == prev.cell_at(r, c));
                            if covers_box(h_i, w_i, sr + dr, sc, 1, dc as int + 1, r, c) {
                                let (dr0, dc0) = choose|dr0: int, dc0: int|
                                    #![trigger wrap_index(sr + dr + dr0, h_i), wrap_index(sc + dc0, w_i)]
                                    0 <= dr0 < 1 && 0 <= dc0 < dc as int + 1 && wrap_index(
                                        sr + dr + dr0,
                                        h_i,
                                    ) == r && wrap_index(sc + dc0, w_i) == c;
                                if dc0 == dc as int {
                                    assert(r == rr as int && c == cc as int);
                                } else {
                                    assert(covers_box(h_i, w_i, sr + dr, sc, 1, dc as int, r, c));
                                }
                            }
                            if covers_box(h_i, w_i, sr + dr, sc, 1, dc as int, r, c) {
                                let (dr0, dc0) = choose|dr0: int, dc0: int|
                                    #![trigger wrap_index(sr + dr + dr0, h_i), wrap_index(sc + dc0, w_i)]
                                    0 <= dr0 < 1 && 0 <= dc0 < dc as int && wrap_index(
                                        sr + dr + dr0,
                                        h_i,
                                    ) == r && wrap_index(sc + dc0, w_i) == c;
                                assert(covers_box(h_i, w_i, sr + dr, sc, 1, dc as int + 1, r, c));
                            }
                        }
                    }
                }
                dc = dc + 1;
            }
            proof {
                assert forall|r: int, c: int|
                    0 <= r < h_i && 0 <= c < w_i implies (covers_box(
                    h_i,
                    w_i,
                    sr,
                    sc,
                    dr as int + 1,
                    box_w as int,
                    r,
                    c,
                ) == (covers_box(h_i, w_i, sr, sc, dr as int, box_w as int, r, c) || covers_box(
                    h_i,
                    w_i,
                    sr + dr,
                    sc,
                    1,
                    box_w as int,
                    r,
                    c,
                ))) by {
                    if covers_box(h_i, w_i, sr, sc, dr as int + 1, box_w as int, r, c) {
                        let (dr0, dc0) = choose|dr0: int, dc0: int|
                            #![trigger wrap_index(sr + dr0, h_i), wrap_index(sc + dc0, w_i)]
                            0 <= dr0 < dr as int + 1 && 0 <= dc0 < box_w as int && wrap_index(
                                sr + dr0,
                                h_i,
                            ) == r && wrap_index(sc + dc0, w_i) == c;
                        if dr0 == dr as int {
                            assert(wrap_index(sr + dr + 0, h_i) == r);
                            assert(covers_box(h_i, w_i, sr + dr, sc, 1, box_w as int, r, c));
                        } else {
                            assert(covers_box(h_i, w_i, sr, sc, dr as int, box_w as int, r, c));
                        }
                    }
                    if covers_box(h_i, w_i, sr, sc, dr as int, box_w as int, r, c) {
                        let (dr0, dc0) = choose|dr0: int, dc0: int|
                            #![trigger wrap_index(sr + dr0, h_i), wrap_index(sc + dc0, w_i)]
                            0 <= dr0 < dr as int && 0 <= dc0 < box_w as int && wrap_index(
                                sr + dr0,
                                h_i,
                            ) == r && wrap_index(sc + dc0, w_i) == c;
                        assert(covers_box(h_i, w_i, sr, sc, dr as int + 1, box_w as int, r, c));
                    }
                    if covers_box(h_i, w_i, sr + dr, sc, 1, box_w as int, r, c) {
                        let (dr0, dc0) = choose|dr0: int, dc0: int|
                            #![trigger wrap_index(sr + dr + dr0, h_i), wrap_index(sc + dc0, w_i)]
                            0 <= dr0 < 1 && 0 <= dc0 < box_w as int && wrap_index(
                                sr + dr + dr0,
                                h_i,
                            ) == r && wrap_index(sc + dc0, w_i) == c;
                        assert(wrap_index(sr + dr, h_i) == r);
                        assert(covers_box(h_i, w_i, sr, sc, dr as int + 1, box_w as int, r, c));
                    }
                }
            }
            dr = dr + 1;
        }
    }

    /// Stamp the pattern `offsets` with bounding box `box_h` x `box_w` at
    /// the anchor `(start_row, start_col)`: first clear the wrapped bounding
    /// box, then overlay the pattern's cells as `Alive`.
    fn stamp(&mut self, offsets: &Vec<(u32, u32)>, box_h: u32, box_w: u32, start_row: u32, start_col: u32)
        requires
            old(self).wf(),
        ensures
            final(self).wf(),
            stamped(
                *old(self),
                *final(self),
                offsets@,
                box_h as int,
                box_w as int,
                start_row as int,
                start_col as int,
            ),
    {
        let h = self.height;
        let w = self.width;
        let ghost h_i = h as int;
        let ghost w_i = w as int;
        let ghost sr = start_row as int;
        let ghost sc = start_col as int;
        self.clear_area(start_row, start_col, box_h, box_w);
        let n = offsets.len();
        let mut k: usize = 0;
        while k < n
            invariant
                self.wf(),
                self.spec_width() == old(self).spec_width(),
                self.spec_height() == old(self).spec_height(),
                h_i == self.spec_height(),
                w_i == self.spec_width(),
                h == self.spec_height(),
                w == self.spec_width(),
                sr == start_row as int,
                sc == start_col as int,
                k <= n,
                n == offsets@.len(),
                forall|r: int, c: int|
                    0 <= r < h_i && 0 <= c < w_i ==> #[trigger] self.cell_at(r, c) == stamp_result(
                        *old(self),
                        offsets@.take(k as int),
                        box_h as int,
                        box_w as int,
                        sr,
                        sc,
                        r,
                        c,
                    ),
            decreases n - k,
        {
            let (off_r, off_c) = offsets[k];
            let rr = ((start_row as u64 + off_r as u64) % (h as u64)) as u32;
            let cc = ((start_col as u64 + off_c as u64) % (w as u64)) as u32;
            proof {
                assert(rr as int == wrap_index(sr + offsets@[k as int].0, h_i));
                assert(cc as int == wrap_index(sc + offsets@[k as int].1, w_i));
            }
            let idx = self.index_of(rr, cc);
            let ghost prev = *self;
            self.cells[idx] = Cell::Alive;
            proof {
                let ghost k_i = k as int;
                assert(offsets@.take(k_i + 1)[k_i] == offsets@[k_i]);
                assert forall|r: int, c: int|
                    0 <= r < h_i && 0 <= c < w_i implies #[trigger] self.cell_at(r, c)
                    == stamp_result(
                    *old(self),
                    offsets@.take(k_i + 1),
                    box_h as int,
                    box_w as int,
                    sr,
                    sc,
                    r,
                    c,
                ) by {
                    lemma_flat_index_bound(r, c, h_i, w_i);
                    if r == rr as int && c == cc as int {
                        assert(covers_pattern(h_i, w_i, offsets@.take(k_i + 1), sr, sc, r, c));
                    } else {
                        if r * w_i + c == idx as int {
                            lemma_flat_index_injective(r, c, rr as int, cc as int, w_i);
                        }
                        assert(self.cell_at(r, c) == prev.cell_at(r, c));
                        if covers_pattern(h_i, w_i, offsets@.take(k_i + 1), sr, sc, r, c) {
                            let k0 = choose|k0: int|
                                0 <= k0 < offsets@.take(k_i + 1).len() && wrap_index(
                                    sr + #[trigger] offsets@.take(k_i + 1)[k0].0,
                                    h_i,
                                ) == r && wrap_index(sc + offsets@.take(k_i + 1)[k0].1, w_i) == c;
                            if k0 == k_i {
                                assert(r == rr as int && c == cc as int);
                            } else {
                                assert(offsets@.take(k_i)[k0] == offsets@.take(k_i + 1)[k0]);
                                assert(covers_pattern(h_i, w_i, offsets@.take(k_i), sr, sc, r, c));
                            }
                        }
                        if covers_pattern(h_i, w_i, offsets@.take(k_i), sr, sc, r, c) {
                            let k0 = choose|k0: int|
                                0 <= k0 < offsets@.take(k_i).len() && wrap_index(
                                    sr + #[trigger] offsets@.take(k_i)[k0].0,
                                    h_i,
                                ) == r && wrap_index(sc + offsets@.take(k_i)[k0].1, w_i) == c;
                            assert(offsets@.take(k_i + 1)[k0] == offsets@.take(k_i)[k0]);
                            assert(covers_pattern(h_i, w_i, offsets@.take(k_i + 1), sr, sc, r, c));
                        }
                    }
                }
            }
            k = k + 1;
        }
        proof {
            assert(offsets@.take(n as int) =~= offsets@);
        }
    }

    /// Stamp one of the predefined patterns anchored at
    /// `(start_row, start_col)`, offsets combined with the anchor under the
    /// toroidal wraparound rule. The pattern's bounding box is cleared to
    /// `Dead` first, so cells of the box not covered by the offset table end
    /// dead. An unrecognized name mutates nothing; the returned flag tells
    /// the host whether the name was recognized, so it can report unknown
    /// names through its diagnostic channel.
    pub fn set_pattern(&mut self, pattern: &str, start_row: u32, start_col: u32) -> (known: bool)
        requires
            old(self).wf(),
        ensures
            final(self).wf(),
            final(self).spec_width() == old(self).spec_width(),
            final(self).spec_height() == old(self).spec_height(),
            known == (pattern@ == "glider"@ || pattern@ == "pulsar"@ || pattern@
                == "gosper_glider_gun"@),
            pattern@ == "glider"@ ==> stamped(
                *old(self),
                *final(self),
                glider_offsets(),
                GLIDER_BOX_ROWS as int,
                GLIDER_BOX_COLS as int,
                start_row as int,
                start_col as int,
            ),
            pattern@ == "pulsar"@ ==> stamped(
                *old(self),
                *final(self),
                pulsar_offsets(),
                PULSAR_BOX_ROWS as int,
                PULSAR_BOX_COLS as int,
                start_row as int,
                start_col as int,
            ),
            pattern@ == "gosper_glider_gun"@ ==> stamped(
                *old(self),
                *final(self),
                gun_offsets(),
                GUN_BOX_ROWS as int,
                GUN_BOX_COLS as int,
                start_row as int,
                start_col as int,
            ),
            !known ==> final(self).grid() == old(self).grid(),
    {
        proof {
            reveal_strlit("glider");
            reveal_strlit("pulsar");
            reveal_strlit("gosper_glider_gun");
            // The three names are pairwise distinct: the first two differ in
            // their first character, the third in its length.
            assert("glider"@[0] == 'g' && "pulsar"@[0] == 'p');
            assert("glider"@.len() == 6 && "pulsar"@.len() == 6);
            assert("gosper_glider_gun"@.len() == 17);
        }
        let p = String::from_str(pattern);
        if p == String::from_str("glider") {
            let offs = glider_cells();
            self.stamp(&offs, GLIDER_BOX_ROWS, GLIDER_BOX_COLS, start_row, start_col);
            true
        } else if p == String::from_str("pulsar") {
            let offs = pulsar_cells();
            self.stamp(&offs, PULSAR_BOX_ROWS, PULSAR_BOX_COLS, start_row, start_col);
            true
        } else if p == String::from_str("gosper_glider_gun") {
            let offs = gun_cells();
            self.stamp(&offs, GUN_BOX_ROWS, GUN_BOX_COLS, start_row, start_col);
            true
        } else {
            false
        }
    }
}

} // verus!
