//! General properties of the grid model, proved once and for all: they hold
//! of every grid the operations can produce.

use vstd::prelude::*;
use crate::rules::{
    cell_at, cleared, lemma_flat_in_range, lemma_next_grid_cell, lemma_wrap_val, neighbor_live,
    next_cell, next_grid, toggled, wrap,
};
use crate::universe::{glider_hits, GliderKind};

verus! {

/// Every cell of the generation after a fully dead grid is dead: death is
/// conserved by the transition rule.
pub proof fn lemma_dead_grid_stays_dead(g: Seq<bool>, w: int, h: int, r: int, c: int)
    requires
        0 < w,
        0 < h,
        g.len() == w * h,
        forall|i: int| 0 <= i < g.len() ==> !g[i],
        0 <= r < h,
        0 <= c < w,
    ensures
        !next_cell(g, w, h, r, c),
{
    lemma_flat_in_range(w, h, r, c);
    assert forall|dr: int, dc: int| -1 <= dr <= 1 && -1 <= dc <= 1 implies neighbor_live(
        g,
        w,
        h,
        r,
        c,
        dr,
        dc,
    ) == 0 by {
        lemma_flat_in_range(w, h, wrap(r, dr, h), wrap(c, dc, w));
    }
}

/// The same, stated for the whole grid: the all-dead grid is a fixed point
/// of the generation step.
pub proof fn lemma_dead_grid_fixed_point(w: int, h: int)
    requires
        0 <= w,
        0 <= h,
    ensures
        next_grid(cleared((w * h) as nat), w, h) == cleared((w * h) as nat),
{
    let g = cleared((w * h) as nat);
    assert forall|i: int| 0 <= i < g.len() implies next_grid(g, w, h)[i] == g[i] by {
        if w == 0 || h == 0 {
            assert(w * h == 0) by (nonlinear_arith)
                requires
                    w == 0 || h == 0,
            ;
        }
        assert(0 < w && 0 < h);
        vstd::arithmetic::div_mod::lemma_fundamental_div_mod(i, w);
        assert(0 <= i / w < h) by (nonlinear_arith)
            requires
                0 < w,
                0 <= i < w * h,
                i == w * (i / w) + i % w,
                0 <= i % w < w,
        ;
        lemma_dead_grid_stays_dead(g, w, h, i / w, i % w);
    }
    assert(next_grid(g, w, h) =~= g);
}

/// Toggling the same cell twice restores the grid exactly.
pub proof fn lemma_toggle_round_trip(g: Seq<bool>, i: int)
    requires
        0 <= i < g.len(),
    ensures
        toggled(toggled(g, i), i) == g,
{
    assert(toggled(toggled(g, i), i) =~= g);
}

/// Clearing is idempotent: a grid that is already fully dead is exactly the
/// cleared grid of its length, so clearing it again changes nothing.
pub proof fn lemma_clear_idempotent(g: Seq<bool>)
    requires
        forall|i: int| 0 <= i < g.len() ==> !g[i],
    ensures
        g == cleared(g.len()),
{
    assert(g =~= cleared(g.len()));
}

/// A 2-by-2 block of live cells with every other cell dead is a still life:
/// the next generation equals the current one (each live cell has exactly 3
/// live neighbors, and no dead cell has exactly 3).
#[verifier::rlimit(60)]
pub proof fn lemma_block_still_life(g: Seq<bool>, w: int, h: int, row: int, col: int)
    requires
        3 <= w,
        3 <= h,
        g.len() == w * h,
        0 <= row,
        row + 1 < h,
        0 <= col,
        col + 1 < w,
        forall|r: int, c: int|
            0 <= r < h && 0 <= c < w ==> (cell_at(g, w, r, c) <==> ((r == row || r == row + 1) && (
            c == col || c == col + 1))),
    ensures
        forall|r: int, c: int|
            0 <= r < h && 0 <= c < w ==> next_cell(g, w, h, r, c) == cell_at(g, w, r, c),
{
    assert forall|r: int, c: int| 0 <= r < h && 0 <= c < w implies next_cell(g, w, h, r, c)
        == cell_at(g, w, r, c) by {
        lemma_wrap_val(r, -1, h);
        lemma_wrap_val(r, 0, h);
        lemma_wrap_val(r, 1, h);
        lemma_wrap_val(c, -1, w);
        lemma_wrap_val(c, 0, w);
        lemma_wrap_val(c, 1, w);
    }
}

/// On a grid of at least 5 by 5 holding nothing but a north-west glider
/// anchored at (0,0), four generations reproduce the same five-cell shape
/// translated one cell up and one cell left, that is, re-anchored at
/// `(h-1, w-1)` modulo the dimensions.
#[verifier::rlimit(100)]
pub proof fn lemma_glider_translation(g0: Seq<bool>, w: int, h: int)
    requires
        5 <= w,
        5 <= h,
        g0.len() == w * h,
        forall|r: int, c: int|
            0 <= r < h && 0 <= c < w ==> (cell_at(g0, w, r, c) <==> glider_hits(
                GliderKind::NorthWest,
                w,
                h,
                0,
                0,
                r,
                c,
            )),
    ensures
        forall|r: int, c: int|
            0 <= r < h && 0 <= c < w ==> (cell_at(
                next_grid(next_grid(next_grid(next_grid(g0, w, h), w, h), w, h), w, h),
                w,
                r,
                c,
            ) <==> glider_hits(GliderKind::NorthWest, w, h, h - 1, w - 1, r, c)),
{
    let g1 = next_grid(g0, w, h);
    let g2 = next_grid(g1, w, h);
    let g3 = next_grid(g2, w, h);
    let g4 = next_grid(g3, w, h);
    assert forall|r: int, c: int| 0 <= r < h && 0 <= c < w implies (cell_at(g0, w, r, c) <==> ((r
        == 0 && c == 0) || (r == 0 && c == 1) || (r == 0 && c == 2) || (r == 1 && c == 0) || (r == 2
        && c == 1))) by {
        lemma_wrap_val(0, 0, h);
        lemma_wrap_val(0, 1, h);
        lemma_wrap_val(0, 2, h);
        lemma_wrap_val(0, 0, w);
        lemma_wrap_val(0, 1, w);
        lemma_wrap_val(0, 2, w);
    }
    assert forall|r: int, c: int| 0 <= r < h && 0 <= c < w implies (cell_at(g1, w, r, c) <==> ((r
        == h - 1 && c == 1) || (r == 0 && c == 0) || (r == 0 && c == 1) || (r == 1 && c == 0) || (r
        == 1 && c == 2))) by {
        lemma_next_grid_cell(g0, w, h, r, c);
        lemma_wrap_val(r, -1, h);
        lemma_wrap_val(r, 0, h);
        lemma_wrap_val(r, 1, h);
        lemma_wrap_val(c, -1, w);
        lemma_wrap_val(c, 0, w);
        lemma_wrap_val(c, 1, w);
    }
    assert forall|r: int, c: int| 0 <= r < h && 0 <= c < w implies (cell_at(g2, w, r, c) <==> ((r
        == 0 && c == 0) || (r == 0 && c == 2) || (r == 1 && c == 0) || (r == h - 1 && c == 0) || (r
        == h - 1 && c == 1))) by {
        lemma_next_grid_cell(g1, w, h, r, c);
        lemma_wrap_val(r, -1, h);
        lemma_wrap_val(r, 0, h);
        lemma_wrap_val(r, 1, h);
        lemma_wrap_val(c, -1, w);
        lemma_wrap_val(c, 0, w);
        lemma_wrap_val(c, 1, w);
    }
    assert forall|r: int, c: int| 0 <= r < h && 0 <= c < w implies (cell_at(g3, w, r, c) <==> ((r
        == 0 && c == 0) || (r == 0 && c == w - 1) || (r == 1 && c == 1) || (r == h - 1 && c == 0)
        || (r == h - 1 && c == 1))) by {
        lemma_next_grid_cell(g2, w, h, r, c);
        lemma_wrap_val(r, -1, h);
        lemma_wrap_val(r, 0, h);
        lemma_wrap_val(r, 1, h);
        lemma_wrap_val(c, -1, w);
        lemma_wrap_val(c, 0, w);
        lemma_wrap_val(c, 1, w);
    }
    assert forall|r: int, c: int| 0 <= r < h && 0 <= c < w implies (cell_at(g4, w, r, c) <==> ((r
        == 0 && c == w - 1) || (r == 1 && c == 0) || (r == h - 1 && c == 0) || (r == h - 1 && c == 1)
        || (r == h - 1 && c == w - 1))) by {
        lemma_next_grid_cell(g3, w, h, r, c);
        lemma_wrap_val(r, -1, h);
        lemma_wrap_val(r, 0, h);
        lemma_wrap_val(r, 1, h);
        lemma_wrap_val(c, -1, w);
        lemma_wrap_val(c, 0, w);
        lemma_wrap_val(c, 1, w);
    }
    assert forall|r: int, c: int| 0 <= r < h && 0 <= c < w implies (#[trigger] glider_hits(
        GliderKind::NorthWest,
        w,
        h,
        h - 1,
        w - 1,
        r,
        c,
    ) <==> ((r == 0 && c == w - 1) || (r == 1 && c == 0) || (r == h - 1 && c == 0) || (r == h - 1
        && c == 1) || (r == h - 1 && c == w - 1))) by {
        lemma_wrap_val(h - 1, 0, h);
        lemma_wrap_val(h - 1, 1, h);
        lemma_wrap_val(h - 1, 2, h);
        lemma_wrap_val(w - 1, 0, w);
        lemma_wrap_val(w - 1, 1, w);
        lemma_wrap_val(w - 1, 2, w);
    }
}

} // verus!
