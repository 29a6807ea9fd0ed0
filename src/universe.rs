use vstd::prelude::*;
use crate::cell::{Cell, InitialState, flipped, live_value};
use crate::grid::{
    all_dead, lemma_index_in_bounds, lemma_neighbour_count_unfold, neighbour_count,
    next_generation,
};
use crate::render::{render_cells, rendered};
use crate::seed::{
    dead_cells, dims_ok, draws_fit, seed_mod_two_seven, seed_pattern, seed_random,
    seed_single_ship,
};

verus! {

/// The mathematical content of a universe: its dimensions and its row-major
/// cell buffer.
pub struct GridView {
    pub width: int,
    pub height: int,
    pub cells: Seq<Cell>,
}

impl GridView {
    /// Both dimensions are positive, every index fits in a `u32`, and the
    /// buffer holds exactly one cell per coordinate.
    pub open spec fn wf(self) -> bool {
        &&& 0 < self.width
        &&& 0 < self.height
        &&& self.width * self.height <= u32::MAX
        &&& self.cells.len() == self.width * self.height
    }
}

/// Cells per row of a new universe.
pub const DEFAULT_WIDTH: u32 = 64;

/// Rows of a new universe.
pub const DEFAULT_HEIGHT: u32 = 64;

/// Whether some listed coordinate pair lands on buffer index `i` of a grid
/// `w` cells wide.
pub open spec fn listed(pairs: Seq<(u32, u32)>, w: int, i: int) -> bool {
    exists|k: int| 0 <= k < pairs.len() && #[trigger] pairs[k].0 * w + pairs[k].1 == i
}

/// `cells` with every listed coordinate pair set alive.
pub open spec fn with_alive(cells: Seq<Cell>, w: int, pairs: Seq<(u32, u32)>) -> Seq<Cell> {
    Seq::new(cells.len(), |i: int| if listed(pairs, w, i) { Cell::Alive } else { cells[i] })
}

/// A toroidal grid of cells.
pub struct Universe {
    width: u32,
    height: u32,
    cells: Vec<Cell>,
}

impl View for Universe {
    type V = GridView;

    closed spec fn view(&self) -> GridView {
        GridView { width: self.width as int, height: self.height as int, cells: self.cells@ }
    }
}

impl Universe {
    /// The universe's content is well formed.
    pub open spec fn wf(&self) -> bool {
        self@.wf()
    }

    /// The buffer index of `(row, column)`.
    fn get_index(&self, row: u32, column: u32) -> (r: usize)
        requires
            self.wf(),
            row < self@.height,
            column < self@.width,
        ensures
            r == row * self@.width + column,
            r < self@.cells.len(),
    {
        proof {
            lemma_index_in_bounds(self.width as int, self.height as int, row as int, column as int);
        }
        ((row * self.width) + column) as usize
    }

    /// The value, 1 or 0, of the cell at `(row, column)`.
    fn live_at(&self, row: u32, column: u32) -> (r: u8)
        requires
            self.wf(),
            row < self@.height,
            column < self@.width,
        ensures
            r == live_value(self@.cells[row * self@.width + column]),
    {
        let idx = self.get_index(row, column);
        self.cells[idx].value()
    }

    /// The number of live cells among the eight neighbours of `(row, column)`,
    /// wrapping around both edges.
    pub fn live_neighbour_count(&self, row: u32, column: u32) -> (r: u8)
        requires
            self.wf(),
            row < self@.height,
            column < self@.width,
        ensures
            r == neighbour_count(self@.cells, self@.width, self@.height, row as int, column as int),
            r <= 8,
    {
        let up = if row == 0 {
            self.height - 1
        } else {
            row - 1
        };
        let down = if row + 1 == self.height {
            0
        } else {
            row + 1
        };
        let left = if column == 0 {
            self.width - 1
        } else {
            column - 1
        };
        let right = if column + 1 == self.width {
            0
        } else {
            column + 1
        };
        proof {
            lemma_neighbour_count_unfold(
                self.cells@,
                self.width as int,
                self.height as int,
                row as int,
                column as int,
                up as int,
                down as int,
                left as int,
                right as int,
            );
        }
        let v0 = self.live_at(up, left);
        let v1 = self.live_at(up, column);
        let v2 = self.live_at(up, right);
        let v3 = self.live_at(row, left);
        let v4 = self.live_at(row, right);
        let v5 = self.live_at(down, left);
        let v6 = self.live_at(down, column);
        let v7 = self.live_at(down, right);
        v0 + v1 + v2 + v3 + v4 + v5 + v6 + v7
    }

    /// Advances the universe by one generation. Every new state is computed
    /// from the buffer as it stood before the call.
    pub fn tick(&mut self)
        requires
            old(self).wf(),
        ensures
            final(self).wf(),
            final(self)@.width == old(self)@.width,
            final(self)@.height == old(self)@.height,
            final(self)@.cells == next_generation(
                old(self)@.cells,
                old(self)@.width,
                old(self)@.height,
            ),
    {
        let ghost w = self.width as int;
        let ghost h = self.height as int;
        let ghost target = next_generation(self.cells@, w, h);
        let mut next: Vec<Cell> = Vec::new();
        let mut row: u32 = 0;
        while row < self.height
            invariant
                self.wf(),
                *self == *old(self),
                w == self.width,
                h == self.height,
                target == next_generation(self.cells@, w, h),
                0 <= row <= h,
                next@.len() == row * w,
                forall|k: int| 0 <= k < next@.len() ==> next@[k] == target[k],
            decreases h - row,
        {
            let mut column: u32 = 0;
            while column < self.width
                invariant
                    self.wf(),
                    *self == *old(self),
                    w == self.width,
                    h == self.height,
                    target == next_generation(self.cells@, w, h),
                    0 <= row < h,
                    0 <= column <= w,
                    next@.len() == row * w + column,
                    forall|k: int| 0 <= k < next@.len() ==> next@[k] == target[k],
                decreases w - column,
            {
                let idx = self.get_index(row, column);
                let live_neighbours = self.live_neighbour_count(row, column);
                proof {
                    lemma_index_in_bounds(w, h, row as int, column as int);
                }
                next.push(self.cells[idx].next(live_neighbours));
                column += 1;
            }
            proof {
                assert((row + 1) * w == row * w + w) by (nonlinear_arith);
            }
            row += 1;
        }
        proof {
            assert(h * w == w * h) by (nonlinear_arith);
            assert(next@ =~= target);
        }
        self.cells = next;
    }

    /// A fresh buffer for a `width` by `height` grid, seeded with
    /// `initial_state`. `below_half` holds one coin per cell for `Random`;
    /// `ship_draw` is the flattened index of the glider's tip for `SingleShip`.
    pub fn setup_cells(
        initial_state: InitialState,
        width: u32,
        height: u32,
        below_half: &[bool],
        ship_draw: u32,
    ) -> (r: Vec<Cell>)
        requires
            dims_ok(width as int, height as int),
            draws_fit(initial_state, width as int, height as int, below_half@, ship_draw as int),
        ensures
            r@ == seed_pattern(
                initial_state,
                width as int,
                height as int,
                below_half@,
                ship_draw as int,
            ),
            r@.len() == width * height,
    {
        match initial_state {
            InitialState::Random => seed_random(below_half),
            InitialState::SingleShip => seed_single_ship(width, height, ship_draw),
            InitialState::ModTwoSeven => seed_mod_two_seven(width * height),
        }
    }

    /// A `DEFAULT_WIDTH` by `DEFAULT_HEIGHT` universe seeded with `initial_state`.
    pub fn new(initial_state: InitialState, below_half: &[bool], ship_draw: u32) -> (r: Universe)
        requires
            draws_fit(
                initial_state,
                DEFAULT_WIDTH as int,
                DEFAULT_HEIGHT as int,
                below_half@,
                ship_draw as int,
            ),
        ensures
            r.wf(),
            r@.width == DEFAULT_WIDTH,
            r@.height == DEFAULT_HEIGHT,
            r@.cells == seed_pattern(
                initial_state,
                DEFAULT_WIDTH as int,
                DEFAULT_HEIGHT as int,
                below_half@,
                ship_draw as int,
            ),
    {
        let width: u32 = DEFAULT_WIDTH;
        let height: u32 = DEFAULT_HEIGHT;
        let cells = Universe::setup_cells(initial_state, width, height, below_half, ship_draw);
        Universe { width, height, cells }
    }

    /// Seeds the buffer anew with `initial_state`, keeping the dimensions.
    pub fn reset(&mut self, initial_state: InitialState, below_half: &[bool], ship_draw: u32)
        requires
            old(self).wf(),
            draws_fit(
                initial_state,
                old(self)@.width,
                old(self)@.height,
                below_half@,
                ship_draw as int,
            ),
        ensures
            final(self).wf(),
            final(self)@.width == old(self)@.width,
            final(self)@.height == old(self)@.height,
            final(self)@.cells == seed_pattern(
                initial_state,
                old(self)@.width,
                old(self)@.height,
                below_half@,
                ship_draw as int,
            ),
    {
        let new_cells = Universe::setup_cells(
            initial_state,
            self.width,
            self.height,
            below_half,
            ship_draw,
        );
        self.cells = new_cells;
    }

    /// Flips the cell at `(row, col)`; no other cell changes.
    pub fn toggle_cell(&mut self, row: u32, col: u32)
        requires
            old(self).wf(),
            row < old(self)@.height,
            col < old(self)@.width,
        ensures
            final(self).wf(),
            final(self)@.width == old(self)@.width,
            final(self)@.height == old(self)@.height,
            final(self)@.cells == old(self)@.cells.update(
                row * old(self)@.width + col,
                flipped(old(self)@.cells[row * old(self)@.width + col]),
            ),
    {
        let cell_idx = self.get_index(row, col);
        let mut cell = self.cells[cell_idx];
        cell.toggle();
        self.cells.set(cell_idx, cell);
    }

    /// Sets every listed `(row, column)` cell alive; unlisted cells keep
    /// their state.
    pub fn set_cells(&mut self, cells: &[(u32, u32)])
        requires
            old(self).wf(),
            forall|k: int|
                0 <= k < cells@.len() ==> #[trigger] cells@[k].0 < old(self)@.height
                    && cells@[k].1 < old(self)@.width,
        ensures
            final(self).wf(),
            final(self)@.width == old(self)@.width,
            final(self)@.height == old(self)@.height,
            final(self)@.cells == with_alive(old(self)@.cells, old(self)@.width, cells@),
    {
        let ghost w = self.width as int;
        let ghost start = self.cells@;
        let mut j: usize = 0;
        while j < cells.len()
            invariant
                self.wf(),
                self@.width == w,
                self@.height == old(self)@.height,
                w == old(self)@.width,
                start == old(self)@.cells,
                j <= cells@.len(),
                forall|k: int|
                    0 <= k < cells@.len() ==> #[trigger] cells@[k].0 < old(self)@.height
                        && cells@[k].1 < old(self)@.width,
                self@.cells == with_alive(start, w, cells@.subrange(0, j as int)),
            decreases cells@.len() - j,
        {
            let (row, col) = cells[j];
            let idx = self.get_index(row, col);
            self.cells.set(idx, Cell::Alive);
            proof {
                let before = cells@.subrange(0, j as int);
                let after = cells@.subrange(0, j + 1);
                assert(after[j as int] == cells@[j as int]);
                assert forall|i: int| 0 <= i < start.len() implies
                    #[trigger] self@.cells[i] == with_alive(start, w, after)[i] by {
                    if i == idx {
                        assert(after[j as int].0 * w + after[j as int].1 == i);
                        assert(listed(after, w, i));
                    } else if listed(after, w, i) {
                        let k = choose|k: int|
                            0 <= k < after.len() && #[trigger] after[k].0 * w + after[k].1 == i;
                        assert(k < j);
                        assert(before[k] == after[k]);
                        assert(listed(before, w, i));
                    } else {
                        assert forall|k: int| 0 <= k < before.len() implies
                            #[trigger] before[k].0 * w + before[k].1 != i by {
                            assert(before[k] == after[k]);
                        }
                        assert(!listed(before, w, i));
                    }
                }
                assert(self@.cells =~= with_alive(start, w, after));
            }
            j += 1;
        }
        assert(cells@.subrange(0, cells@.len() as int) =~= cells@);
    }

    /// Sets the number of cells per row and makes every cell dead.
    pub fn set_width(&mut self, width: u32)
        requires
            old(self).wf(),
            dims_ok(width as int, old(self)@.height),
        ensures
            final(self).wf(),
            final(self)@.width == width,
            final(self)@.height == old(self)@.height,
            final(self)@.cells == all_dead(width * old(self)@.height),
    {
        self.width = width;
        self.cells = dead_cells(width * self.height);
    }

    /// Sets the number of rows and makes every cell dead.
    pub fn set_height(&mut self, height: u32)
        requires
            old(self).wf(),
            dims_ok(old(self)@.width, height as int),
        ensures
            final(self).wf(),
            final(self)@.width == old(self)@.width,
            final(self)@.height == height,
            final(self)@.cells == all_dead(old(self)@.width * height),
    {
        self.height = height;
        self.cells = dead_cells(self.width * height);
    }

    /// The grid as text: one line per row, one glyph per cell.
    pub fn render(&self) -> (r: String)
        requires
            self.wf(),
        ensures
            r@ == rendered(self@.cells, self@.width, self@.height),
    {
        render_cells(self.cells.as_slice(), self.width, self.height)
    }

    /// Cells per row.
    pub fn get_width(&self) -> (r: u32)
        ensures
            r == self@.width,
    {
        self.width
    }

    /// Number of rows.
    pub fn get_height(&self) -> (r: u32)
        ensures
            r == self@.height,
    {
        self.height
    }

    /// The cell buffer, row-major.
    pub fn get_cells(&self) -> (r: &[Cell])
        ensures
            r@ == self@.cells,
    {
        self.cells.as_slice()
    }
}

} // verus!
