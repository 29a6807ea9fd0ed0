use rust_wasm_game_of_life::cell::{Cell, InitialState};
use rust_wasm_game_of_life::seed::{seed_mod_two_seven, seed_random, seed_single_ship};
use rust_wasm_game_of_life::universe::Universe;

const A: Cell = Cell::Alive;
const D: Cell = Cell::Dead;

fn blank(width: u32, height: u32) -> Universe {
    let mut universe = Universe::new(InitialState::ModTwoSeven, &[], 0);
    universe.set_width(width);
    universe.set_height(height);
    universe
}

fn input_spaceship() -> Universe {
    let mut universe = blank(6, 6);
    universe.set_cells(&[(1, 2), (2, 3), (3, 1), (3, 2), (3, 3)]);
    universe
}

fn expected_spaceship() -> Universe {
    let mut universe = blank(6, 6);
    universe.set_cells(&[(2, 1), (2, 3), (3, 2), (3, 3), (4, 2)]);
    universe
}

fn alive_count(universe: &Universe) -> usize {
    universe.get_cells().iter().filter(|c| **c == Cell::Alive).count()
}

#[test]
fn test_tick() {
    let mut input_universe = input_spaceship();
    let expected_universe = expected_spaceship();
    input_universe.tick();
    assert_eq!(&input_universe.get_cells(), &expected_universe.get_cells());
}

#[test]
fn new_universe_has_default_size() {
    let universe = Universe::new(InitialState::ModTwoSeven, &[], 0);
    assert_eq!(universe.get_width(), 64);
    assert_eq!(universe.get_height(), 64);
    assert_eq!(universe.get_cells().len(), 64 * 64);
}

#[test]
fn mod_two_seven_seed_pattern() {
    let universe = Universe::new(InitialState::ModTwoSeven, &[], 0);
    for (i, cell) in universe.get_cells().iter().enumerate() {
        let expected = if i % 2 == 0 || i % 7 == 0 { Cell::Alive } else { Cell::Dead };
        assert_eq!(*cell, expected, "index {}", i);
    }
    let cells = seed_mod_two_seven(15);
    assert_eq!(cells, vec![A, D, A, D, A, D, A, A, A, D, A, D, A, D, A]);
}

#[test]
fn mod_two_seven_reseed_is_identical() {
    let mut universe = Universe::new(InitialState::ModTwoSeven, &[], 0);
    let first = universe.get_cells().to_vec();
    universe.tick();
    universe.reset(InitialState::ModTwoSeven, &[true, false], 3);
    assert_eq!(universe.get_cells(), &first[..]);
}

#[test]
fn random_seed_below_half_is_dead() {
    assert_eq!(seed_random(&[true, false, false, true]), vec![
        Cell::Dead,
        Cell::Alive,
        Cell::Alive,
        Cell::Dead,
    ]);
    let mut universe = blank(2, 2);
    universe.reset(InitialState::Random, &[false, true, true, false], 0);
    assert_eq!(universe.get_cells(), &[Cell::Alive, Cell::Dead, Cell::Dead, Cell::Alive]);
}

#[test]
fn single_ship_places_glider_at_tip() {
    // tip at index 7 of a 5 by 5 grid: column 2, row 1
    let cells = seed_single_ship(5, 5, 7);
    let alive: Vec<usize> =
        (0..25).filter(|i| cells[*i] == Cell::Alive).collect();
    // (x, y): (2,1), (3,2), (4,1), (4,2), (4,3)
    assert_eq!(alive, vec![7, 9, 13, 14, 19]);
}

#[test]
fn single_ship_wraps_around_edges() {
    // tip at the last cell of a 4 by 4 grid: (3, 3)
    let cells = seed_single_ship(4, 4, 15);
    let alive: Vec<usize> =
        (0..16).filter(|i| cells[*i] == Cell::Alive).collect();
    // (x, y): (3,3), (0,0), (1,3), (1,0), (1,1)
    assert_eq!(alive, vec![0, 1, 5, 13, 15]);
}

#[test]
fn toggle_flips_only_one_cell() {
    let mut universe = blank(4, 3);
    universe.toggle_cell(2, 1);
    assert_eq!(universe.get_cells()[9], Cell::Alive);
    assert_eq!(alive_count(&universe), 1);
    universe.toggle_cell(2, 1);
    assert_eq!(alive_count(&universe), 0);
}

#[test]
fn set_cells_does_not_toggle() {
    let mut universe = blank(4, 4);
    universe.set_cells(&[(1, 1), (1, 1), (0, 3)]);
    assert_eq!(alive_count(&universe), 2);
    universe.set_cells(&[(1, 1)]);
    assert_eq!(universe.get_cells()[5], Cell::Alive);
    assert_eq!(universe.get_cells()[3], Cell::Alive);
    assert_eq!(alive_count(&universe), 2);
}

#[test]
fn resizing_kills_every_cell() {
    let mut universe = Universe::new(InitialState::ModTwoSeven, &[], 0);
    universe.set_width(10);
    assert_eq!(universe.get_width(), 10);
    assert_eq!(universe.get_height(), 64);
    assert_eq!(universe.get_cells().len(), 640);
    assert_eq!(alive_count(&universe), 0);
    universe.set_cells(&[(3, 3)]);
    universe.set_height(7);
    assert_eq!(universe.get_height(), 7);
    assert_eq!(universe.get_cells().len(), 70);
    assert_eq!(alive_count(&universe), 0);
}

#[test]
fn neighbour_count_wraps_around() {
    let mut universe = blank(5, 4);
    universe.set_cells(&[(3, 4), (0, 1), (1, 0), (2, 2)]);
    // the corner (0, 0) sees (3, 4), (0, 1) and (1, 0) across the edges
    assert_eq!(universe.live_neighbour_count(0, 0), 3);
    assert_eq!(universe.live_neighbour_count(2, 2), 0);
    assert_eq!(universe.live_neighbour_count(1, 1), 3);
    universe.set_cells(&[(0, 0), (0, 2), (1, 1), (1, 2), (2, 0), (2, 1)]);
    assert_eq!(universe.live_neighbour_count(1, 1), 8);
}

#[test]
fn three_neighbours_give_life_and_loneliness_kills() {
    let mut universe = blank(6, 6);
    universe.set_cells(&[(0, 0), (0, 1), (0, 2), (4, 4)]);
    universe.tick();
    let cells = universe.get_cells();
    // (1, 1) was dead with three live neighbours
    assert_eq!(cells[7], Cell::Alive);
    // (0, 1) was alive with two live neighbours
    assert_eq!(cells[1], Cell::Alive);
    // (4, 4) was alone
    assert_eq!(cells[28], Cell::Dead);
    // (0, 0) had one live neighbour
    assert_eq!(cells[0], Cell::Dead);
}

#[test]
fn transition_rules() {
    for n in 0..=8u8 {
        let alive_next = Cell::Alive.next(n);
        let dead_next = Cell::Dead.next(n);
        assert_eq!(alive_next, if n == 2 || n == 3 { Cell::Alive } else { Cell::Dead });
        assert_eq!(dead_next, if n == 3 { Cell::Alive } else { Cell::Dead });
    }
}

#[test]
fn cell_values_and_toggle() {
    assert_eq!(Cell::Alive.value(), 1);
    assert_eq!(Cell::Dead.value(), 0);
    let mut c = Cell::Dead;
    c.toggle();
    assert_eq!(c, Cell::Alive);
    c.toggle();
    assert_eq!(c, Cell::Dead);
}

#[test]
fn block_is_a_still_life() {
    let mut universe = blank(5, 4);
    universe.set_cells(&[(3, 4), (3, 0), (0, 4), (0, 0)]);
    let start = universe.get_cells().to_vec();
    for _ in 0..5 {
        universe.tick();
        assert_eq!(universe.get_cells(), &start[..]);
    }
}

#[test]
fn blinker_oscillates() {
    let mut universe = blank(5, 5);
    universe.set_cells(&[(2, 1), (2, 2), (2, 3)]);
    universe.tick();
    let mut vertical = blank(5, 5);
    vertical.set_cells(&[(1, 2), (2, 2), (3, 2)]);
    assert_eq!(universe.get_cells(), vertical.get_cells());
    universe.tick();
    let mut horizontal = blank(5, 5);
    horizontal.set_cells(&[(2, 1), (2, 2), (2, 3)]);
    assert_eq!(universe.get_cells(), horizontal.get_cells());
}

#[test]
fn render_shows_rows_and_glyphs() {
    let mut universe = blank(3, 2);
    universe.set_cells(&[(0, 1), (1, 2)]);
    assert_eq!(universe.render(), "◻◼◻\n◻◻◼\n");
}

#[test]
fn render_has_height_lines_of_width_glyphs() {
    let mut universe = blank(7, 4);
    universe.set_cells(&[(0, 0), (3, 6), (2, 3)]);
    let text = universe.render();
    let lines: Vec<&str> = text.split_terminator('\n').collect();
    assert_eq!(lines.len(), 4);
    for (row, line) in lines.iter().enumerate() {
        let glyphs: Vec<char> = line.chars().collect();
        assert_eq!(glyphs.len(), 7);
        for (col, g) in glyphs.iter().enumerate() {
            let cell = universe.get_cells()[row * 7 + col];
            assert_eq!(*g, if cell == Cell::Alive { '◼' } else { '◻' });
        }
    }
}

#[test]
fn full_wrap_shift_keeps_neighbour_counts() {
    let mut universe = blank(4, 5);
    universe.set_cells(&[(0, 0), (4, 3), (2, 1), (2, 2)]);
    let mut shifted = blank(4, 5);
    // moving every live cell by a full height or width lands on the same cells
    shifted.set_cells(&[((0 + 5) % 5, 0), (4, (3 + 4) % 4), (2, 1), (2, 2)]);
    for row in 0..5 {
        for col in 0..4 {
            assert_eq!(
                universe.live_neighbour_count(row, col),
                shifted.live_neighbour_count(row, col)
            );
        }
    }
}

#[test]
fn translation_moves_neighbour_counts_example() {
    let live = [(0u32, 0u32), (0, 1), (1, 1), (3, 2)];
    let mut universe = blank(5, 4);
    universe.set_cells(&live);
    // the same pattern moved one row down and two columns right, wrapping
    let moved: Vec<(u32, u32)> = live.iter().map(|&(r, c)| ((r + 1) % 4, (c + 2) % 5)).collect();
    let mut shifted = blank(5, 4);
    shifted.set_cells(&moved);
    for row in 0..4u32 {
        for col in 0..5u32 {
            assert_eq!(
                shifted.live_neighbour_count((row + 1) % 4, (col + 2) % 5),
                universe.live_neighbour_count(row, col)
            );
        }
    }
}

#[test]
fn tick_is_deterministic_on_equal_grids() {
    let mut first = Universe::new(InitialState::ModTwoSeven, &[], 0);
    let mut second = Universe::new(InitialState::ModTwoSeven, &[], 0);
    for _ in 0..3 {
        first.tick();
        second.tick();
        assert_eq!(first.get_cells(), second.get_cells());
    }
}

#[test]
fn single_ship_universe_has_five_live_cells() {
    let mut universe = Universe::new(InitialState::SingleShip, &[], 4095);
    assert_eq!(alive_count(&universe), 5);
    // tip at (63, 63): the glider wraps to the top left corner
    assert_eq!(universe.get_cells()[4095], Cell::Alive);
    assert_eq!(universe.get_cells()[0], Cell::Alive);
    universe.tick();
    assert_eq!(alive_count(&universe), 5);
}
