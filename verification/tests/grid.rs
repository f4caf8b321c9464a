use wasm_game_of_life::{Cell, Universe};

/// A `w` by `h` universe with every cell Dead.
fn dead_universe(w: u32, h: u32) -> Universe {
    let mut u = Universe::new();
    u.set_width(w);
    u.set_height(h);
    u
}

fn cell_at(u: &Universe, row: u32, col: u32) -> Cell {
    u.get_cells()[(row * u.width() + col) as usize]
}

#[test]
fn new_universe_is_dead_and_default_sized() {
    let u = Universe::new();
    assert_eq!(u.width(), 128);
    assert_eq!(u.height(), 128);
    let cells = u.get_cells();
    assert_eq!(cells.len(), 128 * 128);
    assert!(cells.iter().all(|c| *c == Cell::Dead));
}

#[test]
fn buffer_length_tracks_dimensions() {
    let mut u = Universe::new();
    assert_eq!(u.get_cells().len(), (u.width() * u.height()) as usize);
    u.set_width(7);
    assert_eq!(u.get_cells().len(), (u.width() * u.height()) as usize);
    u.set_height(3);
    assert_eq!(u.get_cells().len(), (u.width() * u.height()) as usize);
    u.tick();
    assert_eq!(u.get_cells().len(), (u.width() * u.height()) as usize);
}

#[test]
fn corner_neighborhood_wraps_to_opposite_corner() {
    // only the opposite corner (2, 2) is alive; it is the toroidal
    // north-west neighbor of (0, 0), so (0, 0) sees one live neighbor
    let mut u = dead_universe(3, 3);
    u.set_cells(&[(2, 2)]);
    assert_eq!(u.live_neighbor_count(0, 0), 1);
}

#[test]
fn thin_grid_double_counts_wrapped_neighbors() {
    // width 1: west and east both wrap to the cell's own column, so the
    // single live cell at (0, 0) is seen three times from (1, 0)
    // (as north-west, north, and north-east) and never as the cell itself
    let mut u = dead_universe(1, 3);
    u.set_cells(&[(0, 0)]);
    assert_eq!(u.live_neighbor_count(1, 0), 3);
    assert_eq!(u.live_neighbor_count(0, 0), 2);
}

#[test]
fn tick_is_deterministic() {
    let pattern: &[(u32, u32)] = &[(0, 1), (1, 3), (2, 2), (3, 0), (4, 4), (2, 3)];
    let mut a = dead_universe(6, 6);
    let mut b = dead_universe(6, 6);
    a.set_cells(pattern);
    b.set_cells(pattern);
    a.tick();
    b.tick();
    assert_eq!(a.get_cells(), b.get_cells());
}

#[test]
fn block_is_a_still_life() {
    let mut u = dead_universe(6, 6);
    u.set_cells(&[(2, 2), (2, 3), (3, 2), (3, 3)]);
    let before: Vec<Cell> = u.get_cells().to_vec();
    u.tick();
    assert_eq!(u.get_cells(), before.as_slice());
    u.tick();
    assert_eq!(u.get_cells(), before.as_slice());
}

#[test]
fn blinker_oscillates_with_period_two() {
    let mut u = dead_universe(5, 5);
    u.set_cells(&[(2, 1), (2, 2), (2, 3)]);
    let horizontal: Vec<Cell> = u.get_cells().to_vec();

    u.tick();
    let mut vertical = dead_universe(5, 5);
    vertical.set_cells(&[(1, 2), (2, 2), (3, 2)]);
    assert_eq!(u.get_cells(), vertical.get_cells());

    u.tick();
    assert_eq!(u.get_cells(), horizontal.as_slice());
}

#[test]
fn cleared_grid_stays_dead_across_ticks() {
    let mut u = dead_universe(8, 8);
    u.set_cells(&[(1, 1), (1, 2), (2, 1), (5, 5)]);
    u.clear();
    for _ in 0..5 {
        u.tick();
        assert!(u.get_cells().iter().all(|c| *c == Cell::Dead));
    }
}

#[test]
fn invert_flips_every_cell() {
    let mut u = dead_universe(4, 3);
    u.set_cells(&[(0, 0), (2, 3)]);
    u.invert();
    for row in 0..3 {
        for col in 0..4 {
            let expected = if (row, col) == (0, 0) || (row, col) == (2, 3) {
                Cell::Dead
            } else {
                Cell::Alive
            };
            assert_eq!(cell_at(&u, row, col), expected);
        }
    }
}

#[test]
fn invert_twice_is_identity() {
    let mut u = dead_universe(5, 4);
    u.set_cells(&[(0, 0), (1, 2), (3, 4), (2, 2)]);
    let before: Vec<Cell> = u.get_cells().to_vec();
    u.invert();
    u.invert();
    assert_eq!(u.get_cells(), before.as_slice());
}

#[test]
fn set_width_keeps_height_and_resets_cells() {
    let mut u = Universe::new();
    u.toggle_cell(5, 5);
    u.set_width(7);
    assert_eq!(u.width(), 7);
    assert_eq!(u.height(), 128);
    let cells = u.get_cells();
    assert_eq!(cells.len(), 7 * 128);
    assert!(cells.iter().all(|c| *c == Cell::Dead));
}

#[test]
fn set_height_keeps_width_and_resets_cells() {
    let mut u = Universe::new();
    u.toggle_cell(5, 5);
    u.set_height(9);
    assert_eq!(u.width(), 128);
    assert_eq!(u.height(), 9);
    let cells = u.get_cells();
    assert_eq!(cells.len(), 128 * 9);
    assert!(cells.iter().all(|c| *c == Cell::Dead));
}

#[test]
fn toggle_cell_flips_exactly_one_cell() {
    let mut u = dead_universe(4, 4);
    u.toggle_cell(1, 2);
    for row in 0..4 {
        for col in 0..4 {
            let expected = if (row, col) == (1, 2) { Cell::Alive } else { Cell::Dead };
            assert_eq!(cell_at(&u, row, col), expected);
        }
    }
}

#[test]
fn toggle_cell_twice_restores_the_grid() {
    let mut u = dead_universe(4, 4);
    u.set_cells(&[(0, 3), (2, 1)]);
    let before: Vec<Cell> = u.get_cells().to_vec();
    u.toggle_cell(2, 1);
    u.toggle_cell(2, 1);
    assert_eq!(u.get_cells(), before.as_slice());
}

#[test]
fn set_cells_marks_exactly_the_given_coordinates() {
    let mut u = dead_universe(4, 4);
    u.toggle_cell(0, 0);
    // duplicates are fine; the rest of the grid is reset to Dead
    u.set_cells(&[(1, 1), (3, 2), (1, 1)]);
    for row in 0..4 {
        for col in 0..4 {
            let expected = if (row, col) == (1, 1) || (row, col) == (3, 2) {
                Cell::Alive
            } else {
                Cell::Dead
            };
            assert_eq!(cell_at(&u, row, col), expected);
        }
    }
}

#[test]
fn cells_view_matches_get_cells() {
    let mut u = dead_universe(3, 3);
    u.set_cells(&[(0, 1), (2, 2)]);
    assert_eq!(u.cells(), u.get_cells());
}
