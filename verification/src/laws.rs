//! Proofs of the automaton's global properties: the torus really wraps both
//! corners onto each other, a step is a pure function of the prior grid, an
//! all-dead grid stays dead, a lone live cell dies of underpopulation, and an
//! isolated 2-by-2 block is a still life.

use vstd::prelude::*;

use crate::universe::lemma_index_in_range;
use crate::universe::lemma_index_to_row_col;
use crate::universe::live_neighbors;
use crate::universe::neighbor;
use crate::universe::next_cell;
use crate::universe::step;
use crate::universe::wrap;
use crate::universe::Universe;

verus! {

/// The row and column a row-major index decomposes into are on the grid, and
/// they compose back to the index.
proof fn lemma_row_col_of_index(w: int, h: int, i: int)
    requires
        0 < w,
        0 < h,
        0 <= i < w * h,
    ensures
        0 <= i / w < h,
        0 <= i % w < w,
        (i / w) * w + i % w == i,
{
    vstd::arithmetic::div_mod::lemma_fundamental_div_mod(i, w);
    vstd::arithmetic::div_mod::lemma_mod_bound(i, w);
    vstd::arithmetic::div_mod::lemma_div_pos_is_pos(i, w);
    if i / w >= h {
        vstd::arithmetic::mul::lemma_mul_inequality(h, i / w, w);
    }
    vstd::arithmetic::mul::lemma_mul_is_commutative(w, i / w);
    vstd::arithmetic::mul::lemma_mul_is_commutative(w, h);
}

/// Every neighbor lookup lands on the grid: the wrapped row and column are in
/// range, and so is the row-major index they form.
proof fn lemma_neighbor_index_in_range(w: int, h: int, row: int, col: int, dr: int, dc: int)
    requires
        0 < w,
        0 < h,
        0 <= row < h,
        0 <= col < w,
        -1 <= dr <= 1,
        -1 <= dc <= 1,
    ensures
        0 <= wrap(row + dr, h) < h,
        0 <= wrap(col + dc, w) < w,
        0 <= wrap(row + dr, h) * w + wrap(col + dc, w) < w * h,
{
    lemma_index_in_range(w, h, wrap(row + dr, h), wrap(col + dc, w));
}

/// A row-major index determines its row and column.
proof fn lemma_index_injective(w: int, r1: int, c1: int, r2: int, c2: int)
    by (nonlinear_arith)
    requires
        0 < w,
        0 <= c1 < w,
        0 <= c2 < w,
        r1 * w + c1 == r2 * w + c2,
    ensures
        r1 == r2,
        c1 == c2,
{
}

/// On an axis of extent at least three, the three torus offsets of a position
/// wrap to three distinct places.
proof fn lemma_wrap_injective(x: int, n: int, d1: int, d2: int)
    requires
        3 <= n,
        0 <= x < n,
        -1 <= d1 <= 1,
        -1 <= d2 <= 1,
        d1 != d2,
    ensures
        wrap(x + d1, n) != wrap(x + d2, n),
{
}

/// The grid is a torus: a live cell in the far corner is counted among the
/// neighbors of `(0, 0)`, and a live cell at `(0, 0)` is counted among the
/// neighbors of the far corner.
pub proof fn lemma_toroidal_wraparound(cells: Seq<bool>, w: int, h: int)
    requires
        1 < w,
        1 < h,
        cells.len() == w * h,
    ensures
        cells[(h - 1) * w + (w - 1)] ==> neighbor(cells, w, h, 0, 0, -1, -1) == 1
            && live_neighbors(cells, w, h, 0, 0) >= 1,
        cells[0] ==> neighbor(cells, w, h, h - 1, w - 1, 1, 1) == 1 && live_neighbors(
            cells,
            w,
            h,
            h - 1,
            w - 1,
        ) >= 1,
{
    assert(wrap(0 - 1, h) == h - 1);
    assert(wrap(0 - 1, w) == w - 1);
    if cells[(h - 1) * w + (w - 1)] {
        assert(neighbor(cells, w, h, 0, 0, -1, -1) == 1);
    }
    assert(wrap((h - 1) + 1, h) == 0);
    assert(wrap((w - 1) + 1, w) == 0);
    if cells[0] {
        assert(neighbor(cells, w, h, h - 1, w - 1, 1, 1) == 1);
    }
}

/// A step is a pure function of the prior cell state: two universes with the
/// same dimensions and the same cells step to the same cells, whatever their
/// generation counters.
pub proof fn lemma_tick_deterministic(a: Universe, b: Universe)
    requires
        a.width == b.width,
        a.height == b.height,
        a.cells_seq() == b.cells_seq(),
    ensures
        step(a.cells_seq(), a.width as int, a.height as int) == step(
            b.cells_seq(),
            b.width as int,
            b.height as int,
        ),
{
}

/// In an all-dead grid, every neighbor count is zero.
proof fn lemma_dead_grid_has_no_neighbors(cells: Seq<bool>, w: int, h: int, row: int, col: int)
    requires
        0 < w,
        0 < h,
        cells.len() == w * h,
        0 <= row < h,
        0 <= col < w,
        forall|i: int| 0 <= i < cells.len() ==> !cells[i],
    ensures
        live_neighbors(cells, w, h, row, col) == 0,
{
    lemma_neighbor_index_in_range(w, h, row, col, -1, -1);
    lemma_neighbor_index_in_range(w, h, row, col, -1, 0);
    lemma_neighbor_index_in_range(w, h, row, col, -1, 1);
    lemma_neighbor_index_in_range(w, h, row, col, 0, -1);
    lemma_neighbor_index_in_range(w, h, row, col, 0, 1);
    lemma_neighbor_index_in_range(w, h, row, col, 1, -1);
    lemma_neighbor_index_in_range(w, h, row, col, 1, 0);
    lemma_neighbor_index_in_range(w, h, row, col, 1, 1);
}

/// A grid with no live cell steps to itself: every cell stays dead (the
/// generation counter still grows, as `tick`'s contract states).
pub proof fn lemma_all_dead_stays_dead(cells: Seq<bool>, w: int, h: int)
    requires
        0 < w,
        0 < h,
        cells.len() == w * h,
        forall|i: int| 0 <= i < cells.len() ==> !cells[i],
    ensures
        step(cells, w, h) == cells,
{
    assert forall|i: int| 0 <= i < cells.len() implies step(cells, w, h)[i] == cells[i] by {
        lemma_row_col_of_index(w, h, i);
        lemma_dead_grid_has_no_neighbors(cells, w, h, i / w, i % w);
    }
    assert(step(cells, w, h) =~= cells);
}

/// In a grid whose only live cell is at `(lr, lc)`, a neighbor summand of
/// `(row, col)` is one exactly when its offset wraps onto `(lr, lc)`.
proof fn lemma_lone_neighbor_term(
    cells: Seq<bool>,
    w: int,
    h: int,
    row: int,
    col: int,
    dr: int,
    dc: int,
    lr: int,
    lc: int,
)
    requires
        0 < w,
        0 < h,
        cells.len() == w * h,
        0 <= row < h,
        0 <= col < w,
        -1 <= dr <= 1,
        -1 <= dc <= 1,
        0 <= lr < h,
        0 <= lc < w,
        forall|i: int| 0 <= i < cells.len() ==> (cells[i] <==> i == lr * w + lc),
    ensures
        neighbor(cells, w, h, row, col, dr, dc) == if wrap(row + dr, h) == lr && wrap(col + dc, w)
            == lc {
            1int
        } else {
            0int
        },
{
    lemma_neighbor_index_in_range(w, h, row, col, dr, dc);
    if wrap(row + dr, h) * w + wrap(col + dc, w) == lr * w + lc {
        lemma_index_injective(w, wrap(row + dr, h), wrap(col + dc, w), lr, lc);
    }
}

/// A single live cell with no live neighbor dies of underpopulation, and no
/// dead cell comes alive: one step after a grid whose only live cell is at
/// `(row, col)`, every cell is dead. The grid must be at least three wide and
/// three high, so that the torus does not make the cell its own neighbor.
pub proof fn lemma_lone_cell_dies(cells: Seq<bool>, w: int, h: int, row: int, col: int)
    requires
        3 <= w,
        3 <= h,
        cells.len() == w * h,
        0 <= row < h,
        0 <= col < w,
        forall|i: int| 0 <= i < cells.len() ==> (cells[i] <==> i == row * w + col),
    ensures
        forall|i: int| 0 <= i < cells.len() ==> !step(cells, w, h)[i],
{
    assert forall|i: int| 0 <= i < cells.len() implies !step(cells, w, h)[i] by {
        lemma_row_col_of_index(w, h, i);
        let r = i / w;
        let c = i % w;
        lemma_lone_neighbor_term(cells, w, h, r, c, -1, -1, row, col);
        lemma_lone_neighbor_term(cells, w, h, r, c, -1, 0, row, col);
        lemma_lone_neighbor_term(cells, w, h, r, c, -1, 1, row, col);
        lemma_lone_neighbor_term(cells, w, h, r, c, 0, -1, row, col);
        lemma_lone_neighbor_term(cells, w, h, r, c, 0, 1, row, col);
        lemma_lone_neighbor_term(cells, w, h, r, c, 1, -1, row, col);
        lemma_lone_neighbor_term(cells, w, h, r, c, 1, 0, row, col);
        lemma_lone_neighbor_term(cells, w, h, r, c, 1, 1, row, col);
        lemma_wrap_injective(r, h, -1, 0);
        lemma_wrap_injective(r, h, -1, 1);
        lemma_wrap_injective(r, h, 0, 1);
        lemma_wrap_injective(c, w, -1, 0);
        lemma_wrap_injective(c, w, -1, 1);
        lemma_wrap_injective(c, w, 0, 1);
        // at most one row offset and at most one column offset wrap onto the
        // live cell, so at most one summand is one
        assert(live_neighbors(cells, w, h, r, c) <= 1);
        if i == row * w + col {
            // the lone live cell itself: its own offset is not a neighbor, so
            // it has no live neighbor at all and dies of underpopulation
            lemma_index_injective(w, r, c, row, col);
            assert(wrap(r + 0, h) == r);
            assert(wrap(c + 0, w) == c);
            assert(live_neighbors(cells, w, h, r, c) == 0);
        }
    }
}

/// Whether `(row, col)` is one of the four cells of the 2-by-2 block whose
/// top-left cell is `(r0, c0)`.
pub open spec fn in_block(r0: int, c0: int, row: int, col: int) -> bool {
    (row == r0 || row == r0 + 1) && (col == c0 || col == c0 + 1)
}

/// In a grid whose live cells are exactly a 2-by-2 block, a neighbor summand
/// of `(row, col)` is one exactly when its offset wraps into the block.
proof fn lemma_block_neighbor_term(
    cells: Seq<bool>,
    w: int,
    h: int,
    row: int,
    col: int,
    dr: int,
    dc: int,
    r0: int,
    c0: int,
)
    requires
        0 < w,
        0 < h,
        cells.len() == w * h,
        0 <= row < h,
        0 <= col < w,
        -1 <= dr <= 1,
        -1 <= dc <= 1,
        forall|i: int| 0 <= i < cells.len() ==> (cells[i] <==> in_block(r0, c0, i / w, i % w)),
    ensures
        neighbor(cells, w, h, row, col, dr, dc) == if in_block(
            r0,
            c0,
            wrap(row + dr, h),
            wrap(col + dc, w),
        ) {
            1int
        } else {
            0int
        },
{
    lemma_neighbor_index_in_range(w, h, row, col, dr, dc);
    lemma_index_to_row_col(w, wrap(row + dr, h), wrap(col + dc, w));
}

/// One cell's step in a grid whose live cells are exactly an isolated 2-by-2
/// block: a block cell sees three live neighbors and lives on, every other
/// cell sees zero, one, two or four and stays dead.
proof fn lemma_block_cell_step(cells: Seq<bool>, w: int, h: int, row: int, col: int, r0: int, c0: int)
    requires
        3 <= w,
        3 <= h,
        cells.len() == w * h,
        0 <= row < h,
        0 <= col < w,
        0 <= r0,
        r0 + 1 < h,
        0 <= c0,
        c0 + 1 < w,
        forall|i: int| 0 <= i < cells.len() ==> (cells[i] <==> in_block(r0, c0, i / w, i % w)),
    ensures
        next_cell(cells[row * w + col], live_neighbors(cells, w, h, row, col)) == cells[row * w
            + col],
{
    lemma_index_in_range(w, h, row, col);
    lemma_index_to_row_col(w, row, col);
    lemma_block_neighbor_term(cells, w, h, row, col, -1, -1, r0, c0);
    lemma_block_neighbor_term(cells, w, h, row, col, -1, 0, r0, c0);
    lemma_block_neighbor_term(cells, w, h, row, col, -1, 1, r0, c0);
    lemma_block_neighbor_term(cells, w, h, row, col, 0, -1, r0, c0);
    lemma_block_neighbor_term(cells, w, h, row, col, 0, 1, r0, c0);
    lemma_block_neighbor_term(cells, w, h, row, col, 1, -1, r0, c0);
    lemma_block_neighbor_term(cells, w, h, row, col, 1, 0, r0, c0);
    lemma_block_neighbor_term(cells, w, h, row, col, 1, 1, r0, c0);
    lemma_wrap_injective(row, h, -1, 0);
    lemma_wrap_injective(row, h, -1, 1);
    lemma_wrap_injective(row, h, 0, 1);
    lemma_wrap_injective(col, w, -1, 0);
    lemma_wrap_injective(col, w, -1, 1);
    lemma_wrap_injective(col, w, 0, 1);
}

/// A single isolated 2-by-2 block of live cells is a still life: one step of
/// a grid whose live cells are exactly the block at `(r0, c0)` (placed off
/// the wrapping edges, on a grid at least three wide and three high) is the
/// same grid.
pub proof fn lemma_block_still_life(cells: Seq<bool>, w: int, h: int, r0: int, c0: int)
    requires
        3 <= w,
        3 <= h,
        cells.len() == w * h,
        0 <= r0,
        r0 + 1 < h,
        0 <= c0,
        c0 + 1 < w,
        forall|i: int| 0 <= i < cells.len() ==> (cells[i] <==> in_block(r0, c0, i / w, i % w)),
    ensures
        step(cells, w, h) == cells,
{
    assert forall|i: int| 0 <= i < cells.len() implies step(cells, w, h)[i] == cells[i] by {
        lemma_row_col_of_index(w, h, i);
        lemma_block_cell_step(cells, w, h, i / w, i % w, r0, c0);
    }
    assert(step(cells, w, h) =~= cells);
}

} // verus!
