use vstd::prelude::*;
use crate::cell::{Cell, InitialState};
use crate::grid::all_dead;

verus! {

/// Coin-flip seeding: a cell whose draw fell below one half is `Dead`, any
/// other is `Alive`.
pub open spec fn random_pattern(below_half: Seq<bool>) -> Seq<Cell> {
    Seq::new(below_half.len(), |i: int| if below_half[i] { Cell::Dead } else { Cell::Alive })
}

/// Whether `(x, y)` is one of the five cells of the glider whose tip is at
/// `(tip_x, tip_y)` on a `w` by `h` torus.
pub open spec fn in_glider(w: int, h: int, tip_x: int, tip_y: int, x: int, y: int) -> bool {
    ||| x == tip_x && y == tip_y
    ||| x == (tip_x + 1) % w && y == (tip_y + 1) % h
    ||| x == (tip_x + 2) % w && y == tip_y % h
    ||| x == (tip_x + 2) % w && y == (tip_y + 1) % h
    ||| x == (tip_x + 2) % w && y == (tip_y + 2) % h
}

/// One glider whose tip sits at the flattened index `draw`, all other cells dead.
pub open spec fn ship_pattern(w: int, h: int, draw: int) -> Seq<Cell> {
    Seq::new(
        (w * h) as nat,
        |i: int|
            if in_glider(w, h, draw % w, draw / w, i % w, i / w) {
                Cell::Alive
            } else {
                Cell::Dead
            },
    )
}

/// The cell at flattened index `i` is alive iff `i` is even or a multiple of seven.
pub open spec fn mod_two_seven_pattern(size: int) -> Seq<Cell> {
    Seq::new(
        size as nat,
        |i: int|
            if i % 2 == 0 || i % 7 == 0 {
                Cell::Alive
            } else {
                Cell::Dead
            },
    )
}

/// The random draws fit the pattern: one coin per cell for `Random`, and a
/// cell index for `SingleShip`.
pub open spec fn draws_fit(
    initial_state: InitialState,
    w: int,
    h: int,
    below_half: Seq<bool>,
    ship_draw: int,
) -> bool {
    match initial_state {
        InitialState::Random => below_half.len() == w * h,
        InitialState::SingleShip => 0 <= ship_draw < w * h,
        InitialState::ModTwoSeven => true,
    }
}

/// The buffer that seeding produces for the given pattern, dimensions and draws.
pub open spec fn seed_pattern(
    initial_state: InitialState,
    w: int,
    h: int,
    below_half: Seq<bool>,
    ship_draw: int,
) -> Seq<Cell> {
    match initial_state {
        InitialState::Random => random_pattern(below_half),
        InitialState::SingleShip => ship_pattern(w, h, ship_draw),
        InitialState::ModTwoSeven => mod_two_seven_pattern(w * h),
    }
}

/// The dimensions that a grid may have.
pub open spec fn dims_ok(w: int, h: int) -> bool {
    0 < w && 0 < h && w * h <= u32::MAX
}

/// Seeds a buffer from one coin per cell.
pub fn seed_random(below_half: &[bool]) -> (r: Vec<Cell>)
    ensures
        r@ == random_pattern(below_half@),
{
    let mut cells: Vec<Cell> = Vec::new();
    let mut i: usize = 0;
    while i < below_half.len()
        invariant
            i <= below_half@.len(),
            cells@.len() == i,
            forall|k: int| 0 <= k < i ==> cells@[k] == random_pattern(below_half@)[k],
        decreases below_half@.len() - i,
    {
        if below_half[i] {
            cells.push(Cell::Dead);
        } else {
            cells.push(Cell::Alive);
        }
        i += 1;
    }
    assert(cells@ =~= random_pattern(below_half@));
    cells
}

/// `(value + offset) % modulus`, computed without overflow.
fn wrap_add(value: u32, offset: u32, modulus: u32) -> (r: u32)
    requires
        0 < modulus,
        offset <= 2,
    ensures
        r == (value + offset) % (modulus as int),
{
    ((value as u64 + offset as u64) % (modulus as u64)) as u32
}

/// Seeds a `width` by `height` buffer with one glider whose tip is at the
/// flattened index `ship_draw`.
pub fn seed_single_ship(width: u32, height: u32, ship_draw: u32) -> (r: Vec<Cell>)
    requires
        dims_ok(width as int, height as int),
        ship_draw < width * height,
    ensures
        r@ == ship_pattern(width as int, height as int, ship_draw as int),
{
    let size = width * height;
    let tip_x = ship_draw % width;
    let tip_y = ship_draw / width;
    let x1 = wrap_add(tip_x, 1, width);
    let x2 = wrap_add(tip_x, 2, width);
    let y0 = wrap_add(tip_y, 0, height);
    let y1 = wrap_add(tip_y, 1, height);
    let y2 = wrap_add(tip_y, 2, height);
    let ghost target = ship_pattern(width as int, height as int, ship_draw as int);
    let mut cells: Vec<Cell> = Vec::new();
    let mut i: u32 = 0;
    while i < size
        invariant
            size == width * height,
            0 < width,
            i <= size,
            cells@.len() == i,
            tip_x == ship_draw % width,
            tip_y == ship_draw / width,
            x1 == (tip_x + 1) % (width as int),
            x2 == (tip_x + 2) % (width as int),
            y0 == (tip_y as int) % (height as int),
            y1 == (tip_y + 1) % (height as int),
            y2 == (tip_y + 2) % (height as int),
            target == ship_pattern(width as int, height as int, ship_draw as int),
            forall|k: int| 0 <= k < i ==> cells@[k] == target[k],
        decreases size - i,
    {
        let x = i % width;
        let y = i / width;
        let alive = (x == tip_x && y == tip_y) || (x == x1 && y == y1) || (x == x2 && y == y0)
            || (x == x2 && y == y1) || (x == x2 && y == y2);
        if alive {
            cells.push(Cell::Alive);
        } else {
            cells.push(Cell::Dead);
        }
        i += 1;
    }
    assert(cells@ =~= target);
    cells
}

/// Seeds a buffer of `size` cells in which index `i` is alive iff it is even
/// or a multiple of seven.
pub fn seed_mod_two_seven(size: u32) -> (r: Vec<Cell>)
    ensures
        r@ == mod_two_seven_pattern(size as int),
{
    let mut cells: Vec<Cell> = Vec::new();
    let mut i: u32 = 0;
    while i < size
        invariant
            i <= size,
            cells@.len() == i,
            forall|k: int| 0 <= k < i ==> cells@[k] == mod_two_seven_pattern(size as int)[k],
        decreases size - i,
    {
        if i % 2 == 0 || i % 7 == 0 {
            cells.push(Cell::Alive);
        } else {
            cells.push(Cell::Dead);
        }
        i += 1;
    }
    assert(cells@ =~= mod_two_seven_pattern(size as int));
    cells
}

/// A buffer of `size` dead cells.
pub fn dead_cells(size: u32) -> (r: Vec<Cell>)
    ensures
        r@ == all_dead(size as int),
{
    let mut cells: Vec<Cell> = Vec::new();
    let mut i: u32 = 0;
    while i < size
        invariant
            i <= size,
            cells@.len() == i,
            forall|k: int| 0 <= k < i ==> cells@[k] == Cell::Dead,
        decreases size - i,
    {
        cells.push(Cell::Dead);
        i += 1;
    }
    assert(cells@ =~= all_dead(size as int));
    cells
}

} // verus!
