use vstd::prelude::*;
use vstd::arithmetic::div_mod::{
    lemma_fundamental_div_mod, lemma_fundamental_div_mod_converse, lemma_mod_bound,
    lemma_mod_multiples_vanish,
};
use crate::cell::{Cell, live_value, next_state};

verus! {

/// The cell shown at `(row, col)` of a `w` by `h` torus whose buffer is `cells`,
/// stored row-major. Both coordinates wrap, so any integers name a cell.
pub open spec fn cell_at(cells: Seq<Cell>, w: int, h: int, row: int, col: int) -> Cell {
    cells[(row % h) * w + col % w]
}

/// The number of live cells among the eight toroidal neighbours of `(row, col)`.
#[verifier::opaque]
pub open spec fn neighbour_count(cells: Seq<Cell>, w: int, h: int, row: int, col: int) -> int {
    live_value(cell_at(cells, w, h, row - 1, col - 1))
        + live_value(cell_at(cells, w, h, row - 1, col))
        + live_value(cell_at(cells, w, h, row - 1, col + 1))
        + live_value(cell_at(cells, w, h, row, col - 1))
        + live_value(cell_at(cells, w, h, row, col + 1))
        + live_value(cell_at(cells, w, h, row + 1, col - 1))
        + live_value(cell_at(cells, w, h, row + 1, col))
        + live_value(cell_at(cells, w, h, row + 1, col + 1))
}

/// The generation that follows `cells`: every cell takes the rules on the
/// neighbour counts of the current buffer.
pub open spec fn next_generation(cells: Seq<Cell>, w: int, h: int) -> Seq<Cell> {
    Seq::new(cells.len(), |i: int| next_state(cells[i], neighbour_count(cells, w, h, i / w, i % w)))
}

/// The buffer after `n` generations.
pub open spec fn generations(cells: Seq<Cell>, w: int, h: int, n: nat) -> Seq<Cell>
    decreases n,
{
    if n == 0 {
        cells
    } else {
        next_generation(generations(cells, w, h, (n - 1) as nat), w, h)
    }
}

/// A buffer of `len` dead cells.
pub open spec fn all_dead(len: int) -> Seq<Cell> {
    Seq::new(len as nat, |i: int| Cell::Dead)
}

/// A cell inside the grid has its row-major index inside the buffer, and the
/// index gives the coordinates back.
pub proof fn lemma_index_in_bounds(w: int, h: int, row: int, col: int)
    requires
        0 <= row < h,
        0 <= col < w,
    ensures
        0 <= row * w + col < w * h,
        (row * w + col) / w == row,
        (row * w + col) % w == col,
{
    assert(0 <= row * w + col < w * h) by (nonlinear_arith)
        requires
            0 <= row < h,
            0 <= col < w,
    ;
    lemma_fundamental_div_mod_converse(row * w + col, w, row, col);
}

/// A buffer index gives coordinates inside the grid, and they give the index
/// back.
pub proof fn lemma_coords_in_bounds(w: int, h: int, i: int)
    requires
        0 < w,
        0 <= i < w * h,
    ensures
        0 <= i / w < h,
        0 <= i % w < w,
        (i / w) * w + i % w == i,
{
    lemma_fundamental_div_mod(i, w);
    lemma_mod_bound(i, w);
    let q = i / w;
    let r = i % w;
    assert(0 <= q < h) by (nonlinear_arith)
        requires
            i == w * q + r,
            0 <= r < w,
            0 <= i < w * h,
    ;
    assert(q * w == w * q) by (nonlinear_arith);
}

/// Reducing before a shift does not change the wrapped result.
pub proof fn lemma_mod_shift(y: int, k: int, n: int)
    requires
        0 < n,
    ensures
        ((y % n) + k) % n == (y + k) % n,
{
    lemma_fundamental_div_mod(y, n);
    lemma_mod_multiples_vanish(y / n, y % n + k, n);
    assert(n * (y / n) + (y % n + k) == y + k);
}

/// A coordinate one step outside `[0, n)` wraps to the other end.
pub proof fn lemma_wrap(x: int, n: int)
    requires
        0 < n,
        -1 <= x <= n,
    ensures
        x % n == (if x < 0 {
            n - 1
        } else if x == n {
            0
        } else {
            x
        }),
{
    if x < 0 {
        lemma_fundamental_div_mod_converse(x, n, -1, n - 1);
    } else if x == n {
        lemma_fundamental_div_mod_converse(x, n, 1, 0);
    } else {
        lemma_fundamental_div_mod_converse(x, n, 0, x);
    }
}

/// The neighbour count spelled out over the wrapped rows `up`, `row`, `down`
/// and columns `left`, `col`, `right` of a cell inside the grid.
pub proof fn lemma_neighbour_count_unfold(
    cells: Seq<Cell>,
    w: int,
    h: int,
    row: int,
    col: int,
    up: int,
    down: int,
    left: int,
    right: int,
)
    requires
        0 <= row < h,
        0 <= col < w,
        up == (if row == 0 {
            h - 1
        } else {
            row - 1
        }),
        down == (if row + 1 == h {
            0
        } else {
            row + 1
        }),
        left == (if col == 0 {
            w - 1
        } else {
            col - 1
        }),
        right == (if col + 1 == w {
            0
        } else {
            col + 1
        }),
    ensures
        neighbour_count(cells, w, h, row, col) == live_value(cells[up * w + left]) + live_value(
            cells[up * w + col],
        ) + live_value(cells[up * w + right]) + live_value(cells[row * w + left]) + live_value(
            cells[row * w + right],
        ) + live_value(cells[down * w + left]) + live_value(cells[down * w + col]) + live_value(
            cells[down * w + right],
        ),
{
    reveal(neighbour_count);
    lemma_wrap(row - 1, h);
    lemma_wrap(row, h);
    lemma_wrap(row + 1, h);
    lemma_wrap(col - 1, w);
    lemma_wrap(col, w);
    lemma_wrap(col + 1, w);
}

} // verus!
