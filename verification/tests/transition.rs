use wasm_game_of_life::{Cell, Universe};

fn dead_universe(w: u32, h: u32) -> Universe {
    let mut u = Universe::new();
    u.set_width(w);
    u.set_height(h);
    u
}

fn at(u: &Universe, row: u32, col: u32) -> Cell {
    u.get_cells()[(row * u.width() + col) as usize]
}

#[test]
fn lone_cell_dies_of_underpopulation() {
    let mut u = dead_universe(5, 5);
    u.set_cells(&[(2, 2)]);
    u.tick();
    assert!(u.get_cells().iter().all(|c| *c == Cell::Dead));
}

#[test]
fn pair_dies_of_underpopulation() {
    let mut u = dead_universe(6, 6);
    u.set_cells(&[(2, 2), (2, 3)]);
    u.tick();
    assert!(u.get_cells().iter().all(|c| *c == Cell::Dead));
}

#[test]
fn crowded_cell_dies_of_overpopulation() {
    // the center of a plus sign has four live neighbors
    let mut u = dead_universe(7, 7);
    u.set_cells(&[(3, 3), (2, 3), (4, 3), (3, 2), (3, 4)]);
    u.tick();
    assert_eq!(at(&u, 3, 3), Cell::Dead);
}

#[test]
fn dead_cell_with_three_neighbors_is_born() {
    // an L of three cells: the fourth corner of the square comes alive
    let mut u = dead_universe(6, 6);
    u.set_cells(&[(2, 2), (2, 3), (3, 2)]);
    u.tick();
    assert_eq!(at(&u, 3, 3), Cell::Alive);
}

#[test]
fn live_cell_with_two_or_three_neighbors_survives() {
    let mut u = dead_universe(6, 6);
    u.set_cells(&[(2, 2), (2, 3), (3, 2), (3, 3)]);
    u.tick();
    assert_eq!(at(&u, 2, 2), Cell::Alive);
    assert_eq!(at(&u, 2, 3), Cell::Alive);
    assert_eq!(at(&u, 3, 2), Cell::Alive);
    assert_eq!(at(&u, 3, 3), Cell::Alive);
}

#[test]
fn tick_wraps_around_the_edges() {
    // a blinker through the corner: live cells in row 0, columns 4, 0, 1
    // form a horizontal line on the torus and flip to a vertical one
    let mut u = dead_universe(5, 5);
    u.set_cells(&[(0, 4), (0, 0), (0, 1)]);
    u.tick();
    assert_eq!(at(&u, 4, 0), Cell::Alive);
    assert_eq!(at(&u, 0, 0), Cell::Alive);
    assert_eq!(at(&u, 1, 0), Cell::Alive);
    assert_eq!(at(&u, 0, 4), Cell::Dead);
    assert_eq!(at(&u, 0, 1), Cell::Dead);
}

#[test]
fn render_draws_rows_of_glyphs() {
    let mut u = dead_universe(2, 2);
    u.set_cells(&[(0, 1)]);
    assert_eq!(u.render(), "◻◼\n◻◻\n");
}

#[test]
fn render_of_empty_width_grid_is_blank_lines() {
    let u = dead_universe(0, 2);
    assert_eq!(u.render(), "\n\n");
}

#[test]
fn greet_returns_the_greeting() {
    assert_eq!(wasm_game_of_life::greet(), "Hello, wasm-game-of-life!");
}

#[test]
fn cell_toggle_flips_the_state() {
    let mut c = Cell::Dead;
    c.toggle();
    assert_eq!(c, Cell::Alive);
    c.toggle();
    assert_eq!(c, Cell::Dead);
}
