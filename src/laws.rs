use vstd::prelude::*;
use vstd::arithmetic::div_mod::{lemma_fundamental_div_mod_converse, lemma_mod_bound};
use crate::cell::{Cell, InitialState};
use crate::grid::{
    cell_at, generations, lemma_coords_in_bounds, lemma_index_in_bounds, lemma_mod_shift,
    lemma_wrap, neighbour_count, next_generation,
};
use crate::render::{glyph, rendered};
use crate::seed::seed_pattern;
use crate::universe::GridView;

verus! {

/// `cells` with its contents moved `dr` rows down and `dc` columns right,
/// wrapping around both edges.
pub open spec fn translate(cells: Seq<Cell>, w: int, h: int, dr: int, dc: int) -> Seq<Cell> {
    Seq::new(cells.len(), |i: int| cell_at(cells, w, h, i / w - dr, i % w - dc))
}

/// The cell at `(r, c)` of a moved grid is the cell `(r - dr, c - dc)` of the
/// original.
proof fn lemma_translate_cell(cells: Seq<Cell>, w: int, h: int, dr: int, dc: int, r: int, c: int)
    requires
        0 < w,
        0 < h,
        cells.len() == w * h,
    ensures
        cell_at(translate(cells, w, h, dr, dc), w, h, r, c) == cell_at(cells, w, h, r - dr, c - dc),
{
    lemma_mod_bound(r, h);
    lemma_mod_bound(c, w);
    lemma_index_in_bounds(w, h, r % h, c % w);
    lemma_mod_shift(r, -dr, h);
    lemma_mod_shift(c, -dc, w);
    assert(r + -dr == r - dr);
    assert(c + -dc == c - dc);
}

/// Moving the contents of a grid moves its neighbour counts with them: the
/// count at `(row, col)` after the move is the count at `(row - dr, col - dc)`
/// before it.
pub proof fn translation_moves_neighbour_counts(
    cells: Seq<Cell>,
    w: int,
    h: int,
    dr: int,
    dc: int,
    row: int,
    col: int,
)
    requires
        0 < w,
        0 < h,
        cells.len() == w * h,
    ensures
        neighbour_count(translate(cells, w, h, dr, dc), w, h, row, col) == neighbour_count(
            cells,
            w,
            h,
            row - dr,
            col - dc,
        ),
{
    reveal(neighbour_count);
    lemma_translate_cell(cells, w, h, dr, dc, row - 1, col - 1);
    lemma_translate_cell(cells, w, h, dr, dc, row - 1, col);
    lemma_translate_cell(cells, w, h, dr, dc, row - 1, col + 1);
    lemma_translate_cell(cells, w, h, dr, dc, row, col - 1);
    lemma_translate_cell(cells, w, h, dr, dc, row, col + 1);
    lemma_translate_cell(cells, w, h, dr, dc, row + 1, col - 1);
    lemma_translate_cell(cells, w, h, dr, dc, row + 1, col);
    lemma_translate_cell(cells, w, h, dr, dc, row + 1, col + 1);
    assert(row - 1 - dr == row - dr - 1);
    assert(row + 1 - dr == row - dr + 1);
    assert(col - 1 - dc == col - dc - 1);
    assert(col + 1 - dc == col - dc + 1);
}

/// Moving the contents of a grid by its full height, or by its full width,
/// gives the same buffer back, so every neighbour count is unchanged.
pub proof fn full_wrap_keeps_neighbour_counts(cells: Seq<Cell>, w: int, h: int)
    requires
        0 < w,
        0 < h,
        cells.len() == w * h,
    ensures
        translate(cells, w, h, h, 0) == cells,
        translate(cells, w, h, 0, w) == cells,
        forall|row: int, col: int|
            0 <= row < h && 0 <= col < w ==> #[trigger] neighbour_count(
                translate(cells, w, h, h, 0),
                w,
                h,
                row,
                col,
            ) == neighbour_count(cells, w, h, row, col) && neighbour_count(
                translate(cells, w, h, 0, w),
                w,
                h,
                row,
                col,
            ) == neighbour_count(cells, w, h, row, col),
{
    assert forall|i: int| 0 <= i < cells.len() implies translate(cells, w, h, h, 0)[i] == cells[i]
        && translate(cells, w, h, 0, w)[i] == cells[i] by {
        lemma_coords_in_bounds(w, h, i);
        let row = i / w;
        let col = i % w;
        lemma_fundamental_div_mod_converse(row - h, h, -1, row);
        lemma_fundamental_div_mod_converse(row, h, 0, row);
        lemma_fundamental_div_mod_converse(col - w, w, -1, col);
        lemma_fundamental_div_mod_converse(col, w, 0, col);
    }
    assert(translate(cells, w, h, h, 0) =~= cells);
    assert(translate(cells, w, h, 0, w) =~= cells);
}

/// Whatever its state, a cell with exactly three live neighbours is alive in
/// the next generation, and one with at most one live neighbour is dead.
pub proof fn three_neighbours_live_and_lonely_die(cells: Seq<Cell>, w: int, h: int)
    ensures
        forall|i: int|
            0 <= i < cells.len() && neighbour_count(cells, w, h, i / w, i % w) == 3
                ==> #[trigger] next_generation(cells, w, h)[i] == Cell::Alive,
        forall|i: int|
            0 <= i < cells.len() && neighbour_count(cells, w, h, i / w, i % w) <= 1
                ==> #[trigger] next_generation(cells, w, h)[i] == Cell::Dead,
{
}

/// A tick depends on the grid alone: two results of ticking the same grid
/// are the same grid.
pub proof fn tick_is_deterministic(before: GridView, first: GridView, second: GridView)
    requires
        first.width == before.width && first.height == before.height,
        second.width == before.width && second.height == before.height,
        first.cells == next_generation(before.cells, before.width, before.height),
        second.cells == next_generation(before.cells, before.width, before.height),
    ensures
        first == second,
{
}

/// Seeding with `ModTwoSeven` ignores the random draws: cell `i` is alive iff
/// `i` is even or a multiple of seven, so seeding again gives the same buffer.
pub proof fn mod_two_seven_is_reproducible(
    w: int,
    h: int,
    below_half: Seq<bool>,
    ship_draw: int,
    other_below_half: Seq<bool>,
    other_ship_draw: int,
)
    requires
        0 < w,
        0 < h,
    ensures
        seed_pattern(InitialState::ModTwoSeven, w, h, below_half, ship_draw) == seed_pattern(
            InitialState::ModTwoSeven,
            w,
            h,
            other_below_half,
            other_ship_draw,
        ),
        seed_pattern(InitialState::ModTwoSeven, w, h, below_half, ship_draw).len() == w * h,
        forall|i: int|
            0 <= i < w * h ==> (#[trigger] seed_pattern(
                InitialState::ModTwoSeven,
                w,
                h,
                below_half,
                ship_draw,
            )[i] == Cell::Alive <==> (i % 2 == 0 || i % 7 == 0)),
{
    assert(0 < w * h) by (nonlinear_arith)
        requires
            0 < w,
            0 < h,
    ;
}

/// The cells read back from a rendering: the glyph at each cell's place in
/// its line tells its state.
pub open spec fn read_back(text: Seq<char>, w: int, h: int) -> Seq<Cell> {
    Seq::new(
        (w * h) as nat,
        |i: int|
            if text[(i / w) * (w + 1) + i % w] == glyph(Cell::Alive) {
                Cell::Alive
            } else {
                Cell::Dead
            },
    )
}

/// The rendering has `h` lines of `w` glyphs, each ended by the only newlines
/// in the text; the glyph in line `row` and place `col` shows that cell, and
/// reading the glyphs back gives the buffer.
pub proof fn render_round_trip(cells: Seq<Cell>, w: int, h: int)
    requires
        0 < w,
        0 < h,
        cells.len() == w * h,
    ensures
        rendered(cells, w, h).len() == h * (w + 1),
        forall|k: int|
            0 <= k < h * (w + 1) ==> (#[trigger] rendered(cells, w, h)[k] == '\n' <==> k % (w + 1)
                == w),
        forall|row: int, col: int|
            0 <= row < h && 0 <= col < w ==> #[trigger] rendered(cells, w, h)[row * (w + 1) + col]
                == glyph(cells[row * w + col]),
        read_back(rendered(cells, w, h), w, h) == cells,
{
    let text = rendered(cells, w, h);
    assert(0 <= h * (w + 1) && h * (w + 1) == (w + 1) * h) by (nonlinear_arith)
        requires
            0 < w,
            0 < h,
    ;
    assert forall|k: int| 0 <= k < h * (w + 1) implies (#[trigger] text[k] == '\n' <==> k % (w + 1)
        == w) by {
        lemma_coords_in_bounds(w + 1, h, k);
        if k % (w + 1) != w {
            let row = k / (w + 1);
            let col = k % (w + 1);
            lemma_index_in_bounds(w, h, row, col);
        }
    }
    assert forall|row: int, col: int| 0 <= row < h && 0 <= col < w implies #[trigger] text[row * (w
        + 1) + col] == glyph(cells[row * w + col]) by {
        lemma_index_in_bounds(w + 1, h, row, col);
        lemma_index_in_bounds(w, h, row, col);
    }
    assert forall|i: int| 0 <= i < cells.len() implies read_back(text, w, h)[i] == cells[i] by {
        lemma_coords_in_bounds(w, h, i);
        let row = i / w;
        let col = i % w;
        lemma_index_in_bounds(w + 1, h, row, col);
        assert(text[row * (w + 1) + col] == glyph(cells[row * w + col]));
    }
    assert(read_back(text, w, h) =~= cells);
}

/// Whether `(row, col)` lies in the two by two block whose top left cell is
/// `(top, left)`, wrapping around both edges.
pub open spec fn in_block(w: int, h: int, top: int, left: int, row: int, col: int) -> bool {
    (row - top) % h < 2 && (col - left) % w < 2
}

/// A `w` by `h` buffer whose only live cells form the block at `(top, left)`.
pub open spec fn block_pattern(w: int, h: int, top: int, left: int) -> Seq<Cell> {
    Seq::new(
        (w * h) as nat,
        |i: int|
            if in_block(w, h, top, left, i / w, i % w) {
                Cell::Alive
            } else {
                Cell::Dead
            },
    )
}

/// The cell `dr` rows and `dc` columns away from `(row, col)` in a block
/// pattern, told by the offsets from the block's corner.
proof fn lemma_block_cell(
    w: int,
    h: int,
    top: int,
    left: int,
    row: int,
    col: int,
    dr: int,
    dc: int,
)
    requires
        0 < w,
        0 < h,
    ensures
        cell_at(block_pattern(w, h, top, left), w, h, row + dr, col + dc) == (if ((row - top) % h
            + dr) % h < 2 && ((col - left) % w + dc) % w < 2 {
            Cell::Alive
        } else {
            Cell::Dead
        }),
{
    let rr = (row + dr) % h;
    let cc = (col + dc) % w;
    lemma_mod_bound(row + dr, h);
    lemma_mod_bound(col + dc, w);
    lemma_index_in_bounds(w, h, rr, cc);
    lemma_mod_shift(row + dr, -top, h);
    lemma_mod_shift(row - top, dr, h);
    lemma_mod_shift(col + dc, -left, w);
    lemma_mod_shift(col - left, dc, w);
    assert(row + dr + -top == row - top + dr);
    assert(col + dc + -left == col - left + dc);
}

/// A lone two by two block on a grid of at least four by four cells is a
/// still life: one tick leaves it as it is.
pub proof fn block_is_still(w: int, h: int, top: int, left: int)
    requires
        4 <= w,
        4 <= h,
    ensures
        next_generation(block_pattern(w, h, top, left), w, h) == block_pattern(w, h, top, left),
{
    let s = block_pattern(w, h, top, left);
    assert(0 < w * h) by (nonlinear_arith)
        requires
            4 <= w,
            4 <= h,
    ;
    assert forall|i: int| 0 <= i < s.len() implies next_generation(s, w, h)[i] == s[i] by {
        lemma_coords_in_bounds(w, h, i);
        let row = i / w;
        let col = i % w;
        reveal(neighbour_count);
        lemma_block_cell(w, h, top, left, row, col, -1, -1);
        lemma_block_cell(w, h, top, left, row, col, -1, 0);
        lemma_block_cell(w, h, top, left, row, col, -1, 1);
        lemma_block_cell(w, h, top, left, row, col, 0, -1);
        lemma_block_cell(w, h, top, left, row, col, 0, 1);
        lemma_block_cell(w, h, top, left, row, col, 1, -1);
        lemma_block_cell(w, h, top, left, row, col, 1, 0);
        lemma_block_cell(w, h, top, left, row, col, 1, 1);
        let a = (row - top) % h;
        let b = (col - left) % w;
        lemma_mod_bound(row - top, h);
        lemma_mod_bound(col - left, w);
        lemma_wrap(a - 1, h);
        lemma_wrap(a, h);
        lemma_wrap(a + 1, h);
        lemma_wrap(b - 1, w);
        lemma_wrap(b, w);
        lemma_wrap(b + 1, w);
    }
    assert(next_generation(s, w, h) =~= s);
}

/// The block stays as it is after any number of ticks.
pub proof fn block_stays_still(w: int, h: int, top: int, left: int, n: nat)
    requires
        4 <= w,
        4 <= h,
    ensures
        generations(block_pattern(w, h, top, left), w, h, n) == block_pattern(w, h, top, left),
    decreases n,
{
    if n > 0 {
        block_stays_still(w, h, top, left, (n - 1) as nat);
        block_is_still(w, h, top, left);
    }
}

} // verus!
