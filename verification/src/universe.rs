//! The `Universe`: a toroidal Game-of-Life grid with bit-packed cells and
//! in-place editing operations.

use vstd::prelude::*;
use fixedbitset::FixedBitSet;
use crate::bits::{bits_of, bitset_contains, bitset_set, bitset_with_capacity};
use crate::rules::{
    cell_at, cleared, flat_index, lemma_flat_in_range, lemma_flat_unique, live_neighbors,
    next_cell, next_grid, toggled, transition, wrap, wrap_offset,
};

verus! {

/// The orientation of a stamped glider.
#[derive(Clone, Copy, Debug, PartialEq, Eq, Structural)]
pub enum GliderKind {
    NorthWest,
    NorthEast,
    SouthWest,
    SouthEast,
}

/// An error reported by an editing operation.
#[derive(Clone, Copy, Debug, PartialEq, Eq, Structural)]
pub enum GridError {
    /// The addressed cell lies outside the grid.
    InvalidCoordinate,
}

/// Whether `(r, c)` is one of the five cells of a glider anchored at
/// `(row, col)` with the given orientation, on a `w` by `h` torus.
pub open spec fn glider_hits(kind: GliderKind, w: int, h: int, row: int, col: int, r: int, c: int) -> bool {
    match kind {
        GliderKind::NorthWest => {
            ||| (r == wrap(row, 0, h) && c == wrap(col, 0, w))
            ||| (r == wrap(row, 0, h) && c == wrap(col, 1, w))
            ||| (r == wrap(row, 0, h) && c == wrap(col, 2, w))
            ||| (r == wrap(row, 1, h) && c == wrap(col, 0, w))
            ||| (r == wrap(row, 2, h) && c == wrap(col, 1, w))
        },
        GliderKind::NorthEast => {
            ||| (r == wrap(row, 0, h) && c == wrap(col, 0, w))
            ||| (r == wrap(row, 0, h) && c == wrap(col, -1, w))
            ||| (r == wrap(row, 0, h) && c == wrap(col, -2, w))
            ||| (r == wrap(row, 1, h) && c == wrap(col, 0, w))
            ||| (r == wrap(row, 2, h) && c == wrap(col, -1, w))
        },
        GliderKind::SouthWest => {
            ||| (r == wrap(row, 0, h) && c == wrap(col, 0, w))
            ||| (r == wrap(row, 0, h) && c == wrap(col, 1, w))
            ||| (r == wrap(row, 0, h) && c == wrap(col, 2, w))
            ||| (r == wrap(row, -1, h) && c == wrap(col, 0, w))
            ||| (r == wrap(row, -2, h) && c == wrap(col, 1, w))
        },
        GliderKind::SouthEast => {
            ||| (r == wrap(row, 0, h) && c == wrap(col, 0, w))
            ||| (r == wrap(row, 0, h) && c == wrap(col, -1, w))
            ||| (r == wrap(row, 0, h) && c == wrap(col, -2, w))
            ||| (r == wrap(row, -1, h) && c == wrap(col, 0, w))
            ||| (r == wrap(row, -2, h) && c == wrap(col, -1, w))
        },
    }
}

/// A toroidal Game-of-Life grid: `width * height` cells packed as bits in
/// row-major order, cell `(row, col)` at bit `row * width + col`.
pub struct Universe {
    width: u32,
    height: u32,
    cells: FixedBitSet,
}

impl Default for Universe {
    /// The default universe: 64 by 64, every cell dead.
    fn default() -> (u: Universe)
        ensures
            u.wf(),
            u.spec_width() == 64,
            u.spec_height() == 64,
            u.grid() == cleared(4096),
    {
        Universe::new(64, 64)
    }
}

impl Universe {
    /// The flattened cell states, in row-major order.
    pub closed spec fn grid(self) -> Seq<bool> {
        bits_of(self.cells)
    }

    /// The number of columns.
    pub closed spec fn spec_width(self) -> int {
        self.width as int
    }

    /// The number of rows.
    pub closed spec fn spec_height(self) -> int {
        self.height as int
    }

    /// The number of cells.
    pub open spec fn size(self) -> int {
        self.spec_width() * self.spec_height()
    }

    /// Well-formedness: the bit buffer holds exactly one bit per cell, and
    /// the cell count fits the arithmetic of the operations.
    pub open spec fn wf(self) -> bool {
        &&& self.grid().len() == self.size()
        &&& self.size() <= u32::MAX
    }

    /// A fresh all-dead grid of the given dimensions.
    pub fn new(width: u32, height: u32) -> (u: Universe)
        requires
            width * height <= u32::MAX,
        ensures
            u.wf(),
            u.spec_width() == width,
            u.spec_height() == height,
            u.grid() == cleared((width * height) as nat),
    {
        let size: usize = (width as usize) * (height as usize);
        let cells = bitset_with_capacity(size);
        Universe { width, height, cells }
    }

    /// The number of columns.
    pub fn width(&self) -> (w: u32)
        ensures
            w == self.spec_width(),
    {
        self.width
    }

    /// The number of rows.
    pub fn height(&self) -> (h: u32)
        ensures
            h == self.spec_height(),
    {
        self.height
    }

    /// A read-only view of the packed bit buffer, for zero-copy rendering by
    /// the host: bit `row * width + col` is 1 iff that cell is alive.
    pub fn cells(&self) -> (c: &FixedBitSet)
        ensures
            bits_of(*c) == self.grid(),
    {
        &self.cells
    }

    /// The flattened index of an in-range cell.
    fn get_index(&self, row: u32, column: u32) -> (idx: usize)
        requires
            self.wf(),
            row < self.spec_height(),
            column < self.spec_width(),
        ensures
            idx == flat_index(self.spec_width(), row as int, column as int),
            idx < self.grid().len(),
    {
        proof {
            lemma_flat_in_range(self.spec_width(), self.spec_height(), row as int, column as int);
        }
        (row as usize) * (self.width as usize) + (column as usize)
    }

    /// The state of an in-range cell.
    fn read_cell(&self, row: u32, column: u32) -> (alive: bool)
        requires
            self.wf(),
            row < self.spec_height(),
            column < self.spec_width(),
        ensures
            alive == cell_at(self.grid(), self.spec_width(), row as int, column as int),
    {
        let idx = self.get_index(row, column);
        bitset_contains(&self.cells, idx)
    }

    /// Advances the grid by one generation: every cell's next state is the
    /// B3/S23 rule applied to its current state and its 8 toroidal neighbors,
    /// the whole old generation read before any cell is replaced.
    #[verifier::loop_isolation(false)]
    pub fn tick(&mut self)
        requires
            old(self).wf(),
        ensures
            final(self).wf(),
            final(self).spec_width() == old(self).spec_width(),
            final(self).spec_height() == old(self).spec_height(),
            final(self).grid() == next_grid(
                old(self).grid(),
                old(self).spec_width(),
                old(self).spec_height(),
            ),
            forall|r: int, c: int|
                0 <= r < old(self).spec_height() && 0 <= c < old(self).spec_width() ==> cell_at(
                    final(self).grid(),
                    old(self).spec_width(),
                    r,
                    c,
                ) == next_cell(
                    old(self).grid(),
                    old(self).spec_width(),
                    old(self).spec_height(),
                    r,
                    c,
                ),
    {
        let w = self.width;
        let h = self.height;
        let size: usize = (w as usize) * (h as usize);
        let mut next = bitset_with_capacity(size);
        let mut row: u32 = 0;
        while row < h
            invariant
                row <= h,
                bits_of(next).len() == size,
                forall|r: int, c: int|
                    0 <= r < row && 0 <= c < w ==> cell_at(bits_of(next), w as int, r, c)
                        == next_cell(self.grid(), w as int, h as int, r, c),
            decreases h - row,
        {
            let mut col: u32 = 0;
            while col < w
                invariant
                    row < h,
                    col <= w,
                    bits_of(next).len() == size,
                    forall|r: int, c: int|
                        0 <= r < row && 0 <= c < w ==> cell_at(bits_of(next), w as int, r, c)
                            == next_cell(self.grid(), w as int, h as int, r, c),
                    forall|c: int|
                        0 <= c < col ==> cell_at(bits_of(next), w as int, row as int, c)
                            == next_cell(self.grid(), w as int, h as int, row as int, c),
                decreases w - col,
            {
                let idx = self.get_index(row, col);
                let alive = bitset_contains(&self.cells, idx);
                let live = self.live_neighbor_count(row, col);
                let ghost prev = bits_of(next);
                bitset_set(&mut next, idx, transition(alive, live));
                proof {
                    assert forall|r: int, c: int|
                        0 <= r <= row && 0 <= c < w && (r < row || c <= col) implies cell_at(
                        bits_of(next),
                        w as int,
                        r,
                        c,
                    ) == next_cell(self.grid(), w as int, h as int, r, c) by {
                        lemma_flat_in_range(w as int, h as int, r, c);
                        if r != row || c != col {
                            lemma_flat_unique(w as int, r, c, row as int, col as int);
                            assert(cell_at(bits_of(next), w as int, r, c) == cell_at(prev, w as int, r, c));
                        }
                    }
                }
                col = col + 1;
            }
            row = row + 1;
        }
        self.cells = next;
        proof {
            let g0 = old(self).grid();
            let gn = self.grid();
            let wi = old(self).spec_width();
            let hi = old(self).spec_height();
            assert forall|i: int| 0 <= i < gn.len() implies gn[i] == next_grid(g0, wi, hi)[i] by {
                if wi == 0 {
                    assert(wi * hi == 0) by (nonlinear_arith)
                        requires
                            wi == 0,
                    ;
                }
                assert(0 < wi);
                vstd::arithmetic::div_mod::lemma_fundamental_div_mod(i, wi);
                assert(0 <= i / wi < hi) by (nonlinear_arith)
                    requires
                        0 < wi,
                        0 <= i < wi * hi,
                        i == wi * (i / wi) + i % wi,
                        0 <= i % wi < wi,
                ;
                assert(cell_at(gn, wi, i / wi, i % wi) == next_cell(g0, wi, hi, i / wi, i % wi));
            }
            assert(gn =~= next_grid(g0, wi, hi));
        }
    }

    /// Kills every cell, leaving the dimensions alone. Idempotent.
    pub fn kill_all_cells(&mut self)
        requires
            old(self).wf(),
        ensures
            final(self).wf(),
            final(self).spec_width() == old(self).spec_width(),
            final(self).spec_height() == old(self).spec_height(),
            final(self).grid() == cleared(old(self).size() as nat),
    {
        let size: usize = (self.width as usize) * (self.height as usize);
        self.cells = bitset_with_capacity(size);
    }

    /// Replaces every cell with the matching entry of `seed`, one drawn bit
    /// per cell, leaving the dimensions alone. The caller supplies the random
    /// draws, so that any uniform source can be injected.
    pub fn generate_random_cells(&mut self, seed: &Vec<bool>)
        requires
            old(self).wf(),
            seed@.len() == old(self).size(),
        ensures
            final(self).wf(),
            final(self).spec_width() == old(self).spec_width(),
            final(self).spec_height() == old(self).spec_height(),
            final(self).grid() == seed@,
    {
        let size: usize = (self.width as usize) * (self.height as usize);
        let mut next = bitset_with_capacity(size);
        let mut i: usize = 0;
        while i < size
            invariant
                i <= size,
                size == old(self).size(),
                seed@.len() == size,
                bits_of(next).len() == size,
                forall|j: int| 0 <= j < i ==> bits_of(next)[j] == seed@[j],
            decreases size - i,
        {
            bitset_set(&mut next, i, seed[i]);
            i = i + 1;
        }
        proof {
            assert(bits_of(next) =~= seed@);
        }
        self.cells = next;
    }

    /// Sets the number of columns and clears the grid to an all-dead one of
    /// the new total size.
    pub fn set_width(&mut self, width: u32)
        requires
            old(self).wf(),
            width * old(self).spec_height() <= u32::MAX,
        ensures
            final(self).wf(),
            final(self).spec_width() == width,
            final(self).spec_height() == old(self).spec_height(),
            final(self).grid() == cleared((width * old(self).spec_height()) as nat),
    {
        self.width = width;
        let size: usize = (self.width as usize) * (self.height as usize);
        self.cells = bitset_with_capacity(size);
    }

    /// Sets the number of rows and clears the grid to an all-dead one of the
    /// new total size.
    pub fn set_height(&mut self, height: u32)
        requires
            old(self).wf(),
            old(self).spec_width() * height <= u32::MAX,
        ensures
            final(self).wf(),
            final(self).spec_width() == old(self).spec_width(),
            final(self).spec_height() == height,
            final(self).grid() == cleared((old(self).spec_width() * height) as nat),
    {
        self.height = height;
        let size: usize = (self.width as usize) * (self.height as usize);
        self.cells = bitset_with_capacity(size);
    }

    /// Counts the live cells among the 8 toroidal neighbors of an in-range
    /// cell, the cell itself excluded.
    pub fn live_neighbor_count(&self, row: u32, column: u32) -> (count: u8)
        requires
            self.wf(),
            row < self.spec_height(),
            column < self.spec_width(),
        ensures
            count == live_neighbors(self.grid(), self.spec_width(), self.spec_height(), row as int, column as int),
    {
        proof {
            vstd::arithmetic::div_mod::lemma_small_mod(row as nat, self.spec_height() as nat);
            vstd::arithmetic::div_mod::lemma_small_mod(column as nat, self.spec_width() as nat);
        }
        let rm = wrap_offset(row, -1, self.height);
        let rp = wrap_offset(row, 1, self.height);
        let cm = wrap_offset(column, -1, self.width);
        let cp = wrap_offset(column, 1, self.width);
        let mut count: u8 = 0;
        if self.read_cell(rm, cm) {
            count = count + 1;
        }
        if self.read_cell(rm, column) {
            count = count + 1;
        }
        if self.read_cell(rm, cp) {
            count = count + 1;
        }
        if self.read_cell(row, cm) {
            count = count + 1;
        }
        if self.read_cell(row, cp) {
            count = count + 1;
        }
        if self.read_cell(rp, cm) {
            count = count + 1;
        }
        if self.read_cell(rp, column) {
            count = count + 1;
        }
        if self.read_cell(rp, cp) {
            count = count + 1;
        }
        count
    }

    /// Flips the cell at `(row, column)`; every other cell and the dimensions
    /// are left alone. Fails, changing nothing, exactly when the coordinate
    /// is out of range.
    pub fn toggle_cell(&mut self, row: u32, column: u32) -> (res: Result<(), GridError>)
        requires
            old(self).wf(),
        ensures
            final(self).wf(),
            final(self).spec_width() == old(self).spec_width(),
            final(self).spec_height() == old(self).spec_height(),
            res is Ok <==> (row < old(self).spec_height() && column < old(self).spec_width()),
            res is Err ==> *final(self) == *old(self),
            res is Ok ==> final(self).grid() == toggled(
                old(self).grid(),
                flat_index(old(self).spec_width(), row as int, column as int),
            ),
    {
        if row >= self.height || column >= self.width {
            return Err(GridError::InvalidCoordinate);
        }
        let idx = self.get_index(row, column);
        let alive = bitset_contains(&self.cells, idx);
        bitset_set(&mut self.cells, idx, !alive);
        Ok(())
    }

    /// Sets alive the cell at toroidal offset `(dr, dc)` from the in-range
    /// anchor `(row, column)`, leaving every other cell alone.
    fn set_wrapped(&mut self, row: u32, column: u32, dr: i8, dc: i8)
        requires
            old(self).wf(),
            row < old(self).spec_height(),
            column < old(self).spec_width(),
            -2 <= dr <= 2,
            -2 <= dc <= 2,
        ensures
            final(self).wf(),
            final(self).spec_width() == old(self).spec_width(),
            final(self).spec_height() == old(self).spec_height(),
            forall|r: int, c: int|
                0 <= r < old(self).spec_height() && 0 <= c < old(self).spec_width() ==> cell_at(
                    final(self).grid(),
                    old(self).spec_width(),
                    r,
                    c,
                ) == (cell_at(old(self).grid(), old(self).spec_width(), r, c) || (r == wrap(
                    row as int,
                    dr as int,
                    old(self).spec_height(),
                ) && c == wrap(column as int, dc as int, old(self).spec_width()))),
    {
        let tr = wrap_offset(row, dr, self.height);
        let tc = wrap_offset(column, dc, self.width);
        let idx = self.get_index(tr, tc);
        let ghost prev = self.grid();
        let ghost w = self.spec_width();
        let ghost h = self.spec_height();
        bitset_set(&mut self.cells, idx, true);
        proof {
            assert forall|r: int, c: int| 0 <= r < h && 0 <= c < w implies cell_at(
                self.grid(),
                w,
                r,
                c,
            ) == (cell_at(prev, w, r, c) || (r == tr && c == tc)) by {
                lemma_flat_in_range(w, h, r, c);
                lemma_flat_unique(w, r, c, tr as int, tc as int);
                if r == tr && c == tc {
                    assert(cell_at(self.grid(), w, r, c));
                } else {
                    assert(cell_at(self.grid(), w, r, c) == cell_at(prev, w, r, c));
                }
            }
        }
    }

    /// Stamps a five-cell glider of the given orientation anchored at
    /// `(row, column)`, wrapping toroidally; only the five target cells are
    /// set alive, everything else is left as it was. Fails, changing
    /// nothing, exactly when the anchor is out of range.
    pub fn draw_glider(&mut self, row: u32, column: u32, kind: GliderKind) -> (res: Result<(), GridError>)
        requires
            old(self).wf(),
        ensures
            final(self).wf(),
            final(self).spec_width() == old(self).spec_width(),
            final(self).spec_height() == old(self).spec_height(),
            res is Ok <==> (row < old(self).spec_height() && column < old(self).spec_width()),
            res is Err ==> *final(self) == *old(self),
            res is Ok ==> forall|r: int, c: int|
                0 <= r < old(self).spec_height() && 0 <= c < old(self).spec_width() ==> cell_at(
                    final(self).grid(),
                    old(self).spec_width(),
                    r,
                    c,
                ) == (cell_at(old(self).grid(), old(self).spec_width(), r, c) || glider_hits(
                    kind,
                    old(self).spec_width(),
                    old(self).spec_height(),
                    row as int,
                    column as int,
                    r,
                    c,
                )),
    {
        if row >= self.height || column >= self.width {
            return Err(GridError::InvalidCoordinate);
        }
        match kind {
            GliderKind::NorthWest => {
                self.set_wrapped(row, column, 0, 0);
                self.set_wrapped(row, column, 0, 1);
                self.set_wrapped(row, column, 0, 2);
                self.set_wrapped(row, column, 1, 0);
                self.set_wrapped(row, column, 2, 1);
            },
            GliderKind::NorthEast => {
                self.set_wrapped(row, column, 0, 0);
                self.set_wrapped(row, column, 0, -1);
                self.set_wrapped(row, column, 0, -2);
                self.set_wrapped(row, column, 1, 0);
                self.set_wrapped(row, column, 2, -1);
            },
            GliderKind::SouthWest => {
                self.set_wrapped(row, column, 0, 0);
                self.set_wrapped(row, column, 0, 1);
                self.set_wrapped(row, column, 0, 2);
                self.set_wrapped(row, column, -1, 0);
                self.set_wrapped(row, column, -2, 1);
            },
            GliderKind::SouthEast => {
                self.set_wrapped(row, column, 0, 0);
                self.set_wrapped(row, column, 0, -1);
                self.set_wrapped(row, column, 0, -2);
                self.set_wrapped(row, column, -1, 0);
                self.set_wrapped(row, column, -2, -1);
            },
        }
        Ok(())
    }
}

} // verus!
