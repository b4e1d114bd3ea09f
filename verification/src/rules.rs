//! The mathematical model of the grid: row-major flattening, toroidal
//! wrapping, neighbor counting and the B3/S23 transition rule.

use vstd::prelude::*;

verus! {

/// Row-major flattened index of cell `(row, col)` in a grid `w` columns wide.
pub open spec fn flat_index(w: int, row: int, col: int) -> int {
    row * w + col
}

/// Toroidal wrap of coordinate `i` moved by offset `d` on an axis of length
/// `n`: the representative of `i + d` modulo `n` in `[0, n)`.
pub open spec fn wrap(i: int, d: int, n: int) -> int
    recommends
        n > 0,
{
    (i + d) % n
}

/// The state of cell `(row, col)` of the flattened grid `g` (width `w`).
pub open spec fn cell_at(g: Seq<bool>, w: int, row: int, col: int) -> bool
    recommends
        0 <= flat_index(w, row, col) < g.len(),
{
    g[flat_index(w, row, col)]
}

/// 1 if the toroidal neighbor of `(row, col)` at offset `(dr, dc)` is alive,
/// else 0.
pub open spec fn neighbor_live(g: Seq<bool>, w: int, h: int, row: int, col: int, dr: int, dc: int) -> int {
    if cell_at(g, w, wrap(row, dr, h), wrap(col, dc, w)) {
        1
    } else {
        0
    }
}

/// Number of live cells among the 8 toroidal neighbors of `(row, col)`, the
/// cell itself excluded.
pub open spec fn live_neighbors(g: Seq<bool>, w: int, h: int, row: int, col: int) -> int {
    neighbor_live(g, w, h, row, col, -1, -1)
        + neighbor_live(g, w, h, row, col, -1, 0)
        + neighbor_live(g, w, h, row, col, -1, 1)
        + neighbor_live(g, w, h, row, col, 0, -1)
        + neighbor_live(g, w, h, row, col, 0, 1)
        + neighbor_live(g, w, h, row, col, 1, -1)
        + neighbor_live(g, w, h, row, col, 1, 0)
        + neighbor_live(g, w, h, row, col, 1, 1)
}

/// The B3/S23 rule: a live cell survives with 2 or 3 live neighbors, a dead
/// cell is born with exactly 3, everything else is dead.
pub open spec fn next_state(alive: bool, neighbors: int) -> bool {
    if alive {
        neighbors == 2 || neighbors == 3
    } else {
        neighbors == 3
    }
}

/// The state of cell `(row, col)` one generation after grid `g`.
pub open spec fn next_cell(g: Seq<bool>, w: int, h: int, row: int, col: int) -> bool {
    next_state(cell_at(g, w, row, col), live_neighbors(g, w, h, row, col))
}

/// The whole next generation of grid `g`: cell `(row, col)` of the result is
/// `next_cell` of `g` at `(row, col)`.
pub open spec fn next_grid(g: Seq<bool>, w: int, h: int) -> Seq<bool> {
    Seq::new(g.len(), |i: int| next_cell(g, w, h, i / w, i % w))
}

/// Reading a cell of `next_grid(g, w, h)` gives `next_cell` of `g` there.
pub proof fn lemma_next_grid_cell(g: Seq<bool>, w: int, h: int, row: int, col: int)
    requires
        0 < w,
        0 < h,
        g.len() == w * h,
        0 <= row < h,
        0 <= col < w,
    ensures
        cell_at(next_grid(g, w, h), w, row, col) == next_cell(g, w, h, row, col),
{
    lemma_flat_in_range(w, h, row, col);
    vstd::arithmetic::div_mod::lemma_fundamental_div_mod_converse_div(row * w + col, w, row, col);
    vstd::arithmetic::div_mod::lemma_fundamental_div_mod_converse_mod(row * w + col, w, row, col);
}

/// Grid `g` with the cell at flattened index `i` flipped.
pub open spec fn toggled(g: Seq<bool>, i: int) -> Seq<bool>
    recommends
        0 <= i < g.len(),
{
    g.update(i, !g[i])
}

/// The all-dead grid of `n` cells.
pub open spec fn cleared(n: nat) -> Seq<bool> {
    Seq::new(n, |i: int| false)
}

/// A flattened index of an in-range cell lies inside the grid.
pub proof fn lemma_flat_in_range(w: int, h: int, row: int, col: int)
    requires
        0 <= row < h,
        0 <= col < w,
    ensures
        0 <= flat_index(w, row, col) < w * h,
{
    assert(row * w + col < w * h) by (nonlinear_arith)
        requires
            0 <= row < h,
            0 <= col < w,
    ;
}

/// Row-major flattening is injective on in-range columns.
pub proof fn lemma_flat_unique(w: int, r1: int, c1: int, r2: int, c2: int)
    requires
        0 <= c1 < w,
        0 <= c2 < w,
    ensures
        flat_index(w, r1, c1) == flat_index(w, r2, c2) ==> (r1 == r2 && c1 == c2),
{
    if r1 < r2 {
        assert(r1 * w + w <= r2 * w) by (nonlinear_arith)
            requires
                r1 + 1 <= r2,
                0 < w,
        ;
    }
    if r2 < r1 {
        assert(r2 * w + w <= r1 * w) by (nonlinear_arith)
            requires
                r2 + 1 <= r1,
                0 < w,
        ;
    }
}

/// The wrapped coordinate written without modulus, for small offsets.
pub proof fn lemma_wrap_val(i: int, d: int, n: int)
    requires
        0 < n,
        0 <= i < n,
        -n <= d <= n,
    ensures
        wrap(i, d, n) == if i + d < 0 {
            i + d + n
        } else if i + d >= n {
            i + d - n
        } else {
            i + d
        },
{
    if i + d < 0 {
        vstd::arithmetic::div_mod::lemma_mod_add_multiples_vanish(i + d, n);
        vstd::arithmetic::div_mod::lemma_small_mod((i + d + n) as nat, n as nat);
    } else if i + d >= n {
        vstd::arithmetic::div_mod::lemma_mod_sub_multiples_vanish(i + d, n);
        vstd::arithmetic::div_mod::lemma_small_mod((i + d - n) as nat, n as nat);
    } else {
        vstd::arithmetic::div_mod::lemma_small_mod((i + d) as nat, n as nat);
    }
}

/// Computes `wrap(i, d, n)` for an in-range coordinate and a small offset.
pub(crate) fn wrap_offset(i: u32, d: i8, n: u32) -> (r: u32)
    requires
        n > 0,
        i < n,
        -2 <= d <= 2,
    ensures
        r == wrap(i as int, d as int, n as int),
{
    let base: u64 = i as u64 + 2 * (n as u64);
    let shifted: u64 = if d >= 0 {
        base + (d as u64)
    } else {
        base - ((-d) as u64)
    };
    let r = (shifted % (n as u64)) as u32;
    proof {
        vstd::arithmetic::div_mod::lemma_mod_multiples_vanish(2, i + d, n as int);
    }
    r
}

/// Applies the transition rule to one cell, the clauses tried in order:
/// underpopulation, survival, overpopulation, reproduction, no change.
pub fn transition(alive: bool, neighbors: u8) -> (next: bool)
    ensures
        next == next_state(alive, neighbors as int),
{
    if alive && neighbors < 2 {
        false
    } else if alive && (neighbors == 2 || neighbors == 3) {
        true
    } else if alive && neighbors > 3 {
        false
    } else if !alive && neighbors == 3 {
        true
    } else {
        alive
    }
}

} // verus!
