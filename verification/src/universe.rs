//! The Grid Automaton: a toroidal grid of binary cells, stored row-major in a
//! `fixedbitset::FixedBitSet`, with a generation counter that grows by one on
//! every step.

use vstd::prelude::*;

use crate::bitset::bits_of;
use crate::bitset::bitset_get;
use crate::bitset::bitset_len;
use crate::bitset::bitset_set;
use crate::bitset::bitset_with_capacity;

verus! {

broadcast use vstd::arithmetic::mul::lemma_mul_is_commutative;

/// Fold an index one step outside `0 .. n` back onto the torus: `-1` maps to
/// `n - 1`, and `n` maps to `0`.
pub open spec fn wrap(i: int, n: int) -> int {
    if i < 0 {
        i + n
    } else if i >= n {
        i - n
    } else {
        i
    }
}

/// Whether the neighbor of `(row, col)` at offset `(dr, dc)` is alive, as a
/// summand: `1` if alive, `0` if dead. The grid is a torus, so the offset
/// position is wrapped onto it before the row-major lookup.
pub open spec fn neighbor(
    cells: Seq<bool>,
    w: int,
    h: int,
    row: int,
    col: int,
    dr: int,
    dc: int,
) -> int {
    if cells[wrap(row + dr, h) * w + wrap(col + dc, w)] {
        1
    } else {
        0
    }
}

/// The number of live cells among the eight toroidal neighbors of
/// `(row, col)`.
pub open spec fn live_neighbors(cells: Seq<bool>, w: int, h: int, row: int, col: int) -> int {
    neighbor(cells, w, h, row, col, -1, -1)
        + neighbor(cells, w, h, row, col, -1, 0)
        + neighbor(cells, w, h, row, col, -1, 1)
        + neighbor(cells, w, h, row, col, 0, -1)
        + neighbor(cells, w, h, row, col, 0, 1)
        + neighbor(cells, w, h, row, col, 1, -1)
        + neighbor(cells, w, h, row, col, 1, 0)
        + neighbor(cells, w, h, row, col, 1, 1)
}

/// Conway's rule, as four explicit conditions: a live cell with fewer than
/// two live neighbors dies; a live cell with two or three lives on; a live
/// cell with more than three dies; a dead cell with exactly three becomes
/// alive; every other cell keeps its state.
pub open spec fn next_cell(alive: bool, n: int) -> bool {
    if alive {
        if n < 2 {
            false
        } else if n == 2 || n == 3 {
            true
        } else {
            false
        }
    } else {
        n == 3
    }
}

/// One simultaneous generation: every cell of the result is Conway's rule
/// applied to the old state of that cell and the count of its live neighbors
/// in the old grid.
pub open spec fn step(cells: Seq<bool>, w: int, h: int) -> Seq<bool> {
    Seq::new(cells.len(), |i: int| next_cell(cells[i], live_neighbors(cells, w, h, i / w, i % w)))
}

/// A row-major index stays under the grid size.
pub proof fn lemma_index_in_range(w: int, h: int, row: int, col: int)
    by (nonlinear_arith)
    requires
        0 <= row < h,
        0 <= col < w,
    ensures
        0 <= row * w + col < w * h,
{
}

/// A row-major index decomposes back into its row and column.
pub proof fn lemma_index_to_row_col(w: int, row: int, col: int)
    requires
        0 <= row,
        0 <= col < w,
    ensures
        (row * w + col) / w == row,
        (row * w + col) % w == col,
{
    vstd::arithmetic::div_mod::lemma_fundamental_div_mod_converse(row * w + col, w, row, col);
}

/// One step down along a torus axis of extent `n`.
fn wrap_dec(i: u32, n: u32) -> (r: u32)
    requires
        0 < n,
        i < n,
    ensures
        r == wrap(i - 1, n as int),
        r < n,
{
    if i == 0 {
        n - 1
    } else {
        i - 1
    }
}

/// One step up along a torus axis of extent `n`.
fn wrap_inc(i: u32, n: u32) -> (r: u32)
    requires
        0 < n,
        i < n,
    ensures
        r == wrap(i + 1, n as int),
        r < n,
{
    if i == n - 1 {
        0
    } else {
        i + 1
    }
}

pub struct Universe {
    pub width: u32,
    pub height: u32,
    pub cells: fixedbitset::FixedBitSet,
    pub generation: i64,
}

impl Universe {
    /// The cell states, row-major: the cell at `(row, col)` is at index
    /// `row * width + col`.
    pub open spec fn cells_seq(self) -> Seq<bool> {
        bits_of(self.cells)
    }

    /// The state of the cell at `(row, col)`.
    pub open spec fn spec_cell(self, row: int, col: int) -> bool {
        self.cells_seq()[row * self.width + col]
    }

    /// The invariant every reachable state keeps: positive dimensions whose
    /// product fits the index arithmetic, exactly `width * height` stored
    /// cells, and a non-negative generation counter.
    pub open spec fn well_formed(self) -> bool {
        &&& 0 < self.width
        &&& 0 < self.height
        &&& self.width * self.height <= u32::MAX
        &&& self.cells_seq().len() == self.width * self.height
        &&& 0 <= self.generation
    }

    /// A fresh universe: the given positive dimensions, every cell dead, and
    /// the generation counter at zero.
    pub fn new(width: u32, height: u32) -> (r: Universe)
        requires
            0 < width,
            0 < height,
            width * height <= u32::MAX,
        ensures
            r.well_formed(),
            r.width == width,
            r.height == height,
            r.generation == 0,
            forall|i: int| 0 <= i < width * height ==> !r.cells_seq()[i],
    {
        let size: usize = (width * height) as usize;
        let cells = bitset_with_capacity(size);
        Universe { width, height, cells, generation: 0 }
    }

    /// The row-major index of `(row, col)`.
    fn get_index(&self, row: u32, column: u32) -> (idx: usize)
        requires
            self.well_formed(),
            row < self.height,
            column < self.width,
        ensures
            idx == row * self.width + column,
            idx < self.width * self.height,
    {
        proof {
            lemma_index_in_range(self.width as int, self.height as int, row as int, column as int);
        }
        (row * self.width + column) as usize
    }

    /// The fixed grid width.
    pub fn width(&self) -> (w: u32)
        ensures
            w == self.width,
    {
        self.width
    }

    /// The fixed grid height.
    pub fn height(&self) -> (h: u32)
        ensures
            h == self.height,
    {
        self.height
    }

    /// The state of the cell at `(row, column)`; the position must be on the
    /// grid.
    pub fn cell_at(&self, row: u32, column: u32) -> (alive: bool)
        requires
            self.well_formed(),
            row < self.height,
            column < self.width,
        ensures
            alive == self.spec_cell(row as int, column as int),
    {
        let idx = self.get_index(row, column);
        bitset_get(&self.cells, idx)
    }

    /// Flips exactly the cell at `(row, column)`: that cell's state inverts,
    /// every other cell, the dimensions and the generation stay as they were.
    pub fn toggle_cell(&mut self, row: u32, column: u32)
        requires
            old(self).well_formed(),
            row < old(self).height,
            column < old(self).width,
        ensures
            final(self).well_formed(),
            final(self).width == old(self).width,
            final(self).height == old(self).height,
            final(self).generation == old(self).generation,
            final(self).cells_seq() == old(self).cells_seq().update(
                row * old(self).width + column,
                !old(self).spec_cell(row as int, column as int),
            ),
    {
        let idx = self.get_index(row, column);
        let alive = bitset_get(&self.cells, idx);
        bitset_set(&mut self.cells, idx, !alive);
    }

    /// The count of live cells among the eight toroidal neighbors of
    /// `(row, column)`.
    fn live_neighbor_count(&self, row: u32, column: u32) -> (count: u8)
        requires
            self.well_formed(),
            row < self.height,
            column < self.width,
        ensures
            count == live_neighbors(
                self.cells_seq(),
                self.width as int,
                self.height as int,
                row as int,
                column as int,
            ),
    {
        let up = wrap_dec(row, self.height);
        let down = wrap_inc(row, self.height);
        let left = wrap_dec(column, self.width);
        let right = wrap_inc(column, self.width);

        let mut count: u8 = 0;
        if self.cell_at(up, left) {
            count = count + 1;
        }
        if self.cell_at(up, column) {
            count = count + 1;
        }
        if self.cell_at(up, right) {
            count = count + 1;
        }
        if self.cell_at(row, left) {
            count = count + 1;
        }
        if self.cell_at(row, right) {
            count = count + 1;
        }
        if self.cell_at(down, left) {
            count = count + 1;
        }
        if self.cell_at(down, column) {
            count = count + 1;
        }
        if self.cell_at(down, right) {
            count = count + 1;
        }
        count
    }

    /// Advances the automaton by exactly one generation. Every cell of the
    /// new grid is Conway's rule applied to that cell's old state and the
    /// count of live cells among its eight toroidal neighbors, all counted
    /// against the pre-step grid; the whole grid is replaced at once, and the
    /// generation counter grows by exactly one.
    pub fn tick(&mut self)
        requires
            old(self).well_formed(),
            old(self).generation < i64::MAX,
        ensures
            final(self).well_formed(),
            final(self).width == old(self).width,
            final(self).height == old(self).height,
            final(self).generation == old(self).generation + 1,
            final(self).cells_seq() == step(
                old(self).cells_seq(),
                old(self).width as int,
                old(self).height as int,
            ),
    {
        let ghost prev: Seq<bool> = self.cells_seq();
        let ghost w: int = self.width as int;
        let ghost h: int = self.height as int;

        let size: usize = (self.width * self.height) as usize;
        let mut next = bitset_with_capacity(size);

        let mut row: u32 = 0;
        while row < self.height
            invariant
                *self == *old(self),
                self.well_formed(),
                prev == self.cells_seq(),
                w == self.width as int,
                h == self.height as int,
                row <= self.height,
                bits_of(next).len() == w * h,
                forall|i: int| 0 <= i < row * w ==> bits_of(next)[i] == step(prev, w, h)[i],
            decreases self.height - row,
        {
            let mut col: u32 = 0;
            while col < self.width
                invariant
                    *self == *old(self),
                    self.well_formed(),
                    prev == self.cells_seq(),
                    w == self.width as int,
                    h == self.height as int,
                    row < self.height,
                    col <= self.width,
                    bits_of(next).len() == w * h,
                    forall|i: int|
                        0 <= i < row * w + col ==> bits_of(next)[i] == step(prev, w, h)[i],
                decreases self.width - col,
            {
                let idx = self.get_index(row, col);
                let alive = bitset_get(&self.cells, idx);
                let n = self.live_neighbor_count(row, col);

                let next_alive = if alive && n < 2 {
                    // underpopulation
                    false
                } else if alive && (n == 2 || n == 3) {
                    // survival
                    true
                } else if alive && n > 3 {
                    // overpopulation
                    false
                } else if !alive && n == 3 {
                    // reproduction
                    true
                } else {
                    // every other cell keeps its state
                    alive
                };

                proof {
                    lemma_index_to_row_col(w, row as int, col as int);
                    assert(step(prev, w, h)[idx as int] == next_alive);
                }
                bitset_set(&mut next, idx, next_alive);
                col = col + 1;
            }
            proof {
                assert((row + 1) * w == row * w + w) by (nonlinear_arith);
            }
            row = row + 1;
        }
        proof {
            assert(bits_of(next) =~= step(prev, w, h));
        }
        self.cells = next;
        self.generation = self.generation + 1;
    }

    /// Overwrites every cell with the corresponding caller-supplied draw, one
    /// per cell in row-major order; the dimensions and the generation stay as
    /// they were. The randomness source is an external collaborator: the
    /// caller draws one boolean per cell and hands them in.
    pub fn randomize(&mut self, draws: &Vec<bool>)
        requires
            old(self).well_formed(),
            draws@.len() == old(self).width * old(self).height,
        ensures
            final(self).well_formed(),
            final(self).width == old(self).width,
            final(self).height == old(self).height,
            final(self).generation == old(self).generation,
            final(self).cells_seq() == draws@,
    {
        let size: usize = (self.width * self.height) as usize;
        let mut i: usize = 0;
        while i < size
            invariant
                self.width == old(self).width,
                self.height == old(self).height,
                self.generation == old(self).generation,
                self.well_formed(),
                size == self.width * self.height,
                draws@.len() == size,
                i <= size,
                forall|j: int| 0 <= j < i ==> self.cells_seq()[j] == draws@[j],
            decreases size - i,
        {
            bitset_set(&mut self.cells, i, draws[i]);
            i = i + 1;
        }
        proof {
            assert(self.cells_seq() =~= draws@);
        }
    }

    /// The current generation counter: `0` at construction, one more after
    /// every step, never reset.
    pub fn generation(&self) -> (g: i64)
        ensures
            g == self.generation,
    {
        self.generation
    }
}

/// As in contracts, `==` on universes compares the dimensions and the cell
/// states; two universes can be equal at different generations.
impl vstd::std_specs::cmp::PartialEqSpecImpl for Universe {
    open spec fn obeys_eq_spec() -> bool {
        true
    }

    open spec fn eq_spec(&self, other: &Universe) -> bool {
        self.width == other.width && self.height == other.height && bits_of(self.cells) == bits_of(
            other.cells,
        )
    }
}

impl PartialEq for Universe {
    /// Whether the two universes have the same dimensions and the same cell
    /// states; the generation counters are not compared.
    fn eq(&self, other: &Universe) -> (r: bool) {
        if self.width != other.width || self.height != other.height {
            return false;
        }
        let n = bitset_len(&self.cells);
        let m = bitset_len(&other.cells);
        if n != m {
            return false;
        }
        let mut i: usize = 0;
        while i < n
            invariant
                n == bits_of(self.cells).len(),
                n == bits_of(other.cells).len(),
                i <= n,
                forall|j: int| 0 <= j < i ==> bits_of(self.cells)[j] == bits_of(other.cells)[j],
            decreases n - i,
        {
            if bitset_get(&self.cells, i) != bitset_get(&other.cells, i) {
                return false;
            }
            i = i + 1;
        }
        proof {
            assert(bits_of(self.cells) =~= bits_of(other.cells));
        }
        true
    }
}

impl Eq for Universe {

}

} // verus!
