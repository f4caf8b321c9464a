//! The mathematical model of the grid: row-major indexing, the toroidal
//! neighborhood, the per-cell transition rule, and whole-grid transforms.
//! Executable code in `universe` is specified against these functions.

use vstd::prelude::*;

use crate::cell::Cell;

verus! {

/// Wrap a coordinate one step toward lower indices on an axis of extent `n`:
/// 0 wraps to `n - 1`.
pub open spec fn wrap_dec(i: int, n: int) -> int {
    if i == 0 {
        n - 1
    } else {
        i - 1
    }
}

/// Wrap a coordinate one step toward higher indices on an axis of extent `n`:
/// `n - 1` wraps to 0.
pub open spec fn wrap_inc(i: int, n: int) -> int {
    if i == n - 1 {
        0
    } else {
        i + 1
    }
}

/// Row-major position of `(row, col)` on a grid `w` cells wide.
pub open spec fn pos(w: int, row: int, col: int) -> int {
    row * w + col
}

/// 1 if the cell at `(row, col)` is Alive, else 0.
pub open spec fn live_at(cells: Seq<Cell>, w: int, row: int, col: int) -> int {
    cells[pos(w, row, col)].live_count()
}

/// The eight toroidal neighbor coordinates of `(row, col)`: the row above,
/// the same row, and the row below, each wrapped, with the cell itself left
/// out. On an axis of extent 1 or 2 a coordinate can appear twice; such a
/// neighbor is counted twice, the standard toroidal reading.
pub open spec fn neighbor_coords(w: int, h: int, row: int, col: int) -> Seq<(int, int)> {
    seq![
        (wrap_dec(row, h), wrap_dec(col, w)),
        (wrap_dec(row, h), col),
        (wrap_dec(row, h), wrap_inc(col, w)),
        (row, wrap_dec(col, w)),
        (row, wrap_inc(col, w)),
        (wrap_inc(row, h), wrap_dec(col, w)),
        (wrap_inc(row, h), col),
        (wrap_inc(row, h), wrap_inc(col, w)),
    ]
}

/// 1 if the cell at coordinate pair `p` is Alive, else 0.
pub open spec fn live_at_pair(cells: Seq<Cell>, w: int, p: (int, int)) -> int {
    live_at(cells, w, p.0, p.1)
}

/// How many of the eight toroidal neighbors of `(row, col)` are Alive,
/// a value in 0..=8 (a coordinate reached twice contributes twice).
/// `lemma_neighbor_count_over_coords` states that these are exactly the
/// coordinates `neighbor_coords` lists.
pub open spec fn neighbor_count(cells: Seq<Cell>, w: int, h: int, row: int, col: int) -> int {
    live_at(cells, w, wrap_dec(row, h), wrap_dec(col, w)) + live_at(cells, w, wrap_dec(row, h), col)
        + live_at(cells, w, wrap_dec(row, h), wrap_inc(col, w)) + live_at(
        cells,
        w,
        row,
        wrap_dec(col, w),
    ) + live_at(cells, w, row, wrap_inc(col, w)) + live_at(
        cells,
        w,
        wrap_inc(row, h),
        wrap_dec(col, w),
    ) + live_at(cells, w, wrap_inc(row, h), col) + live_at(
        cells,
        w,
        wrap_inc(row, h),
        wrap_inc(col, w),
    )
}

/// The neighbor count is the sum, over exactly the coordinates that
/// `neighbor_coords` lists, of each coordinate's live contribution.
pub proof fn lemma_neighbor_count_over_coords(
    cells: Seq<Cell>,
    w: int,
    h: int,
    row: int,
    col: int,
)
    ensures
        neighbor_count(cells, w, h, row, col) == live_at_pair(
            cells,
            w,
            neighbor_coords(w, h, row, col)[0],
        ) + live_at_pair(cells, w, neighbor_coords(w, h, row, col)[1]) + live_at_pair(
            cells,
            w,
            neighbor_coords(w, h, row, col)[2],
        ) + live_at_pair(cells, w, neighbor_coords(w, h, row, col)[3]) + live_at_pair(
            cells,
            w,
            neighbor_coords(w, h, row, col)[4],
        ) + live_at_pair(cells, w, neighbor_coords(w, h, row, col)[5]) + live_at_pair(
            cells,
            w,
            neighbor_coords(w, h, row, col)[6],
        ) + live_at_pair(cells, w, neighbor_coords(w, h, row, col)[7]),
{
    let ns = neighbor_coords(w, h, row, col);
    assert(ns[0] == (wrap_dec(row, h), wrap_dec(col, w)));
    assert(ns[1] == (wrap_dec(row, h), col));
    assert(ns[2] == (wrap_dec(row, h), wrap_inc(col, w)));
    assert(ns[3] == (row, wrap_dec(col, w)));
    assert(ns[4] == (row, wrap_inc(col, w)));
    assert(ns[5] == (wrap_inc(row, h), wrap_dec(col, w)));
    assert(ns[6] == (wrap_inc(row, h), col));
    assert(ns[7] == (wrap_inc(row, h), wrap_inc(col, w)));
}

/// The transition rule for one cell with `n` live neighbors:
/// an Alive cell survives with 2 or 3, otherwise dies; a Dead cell
/// comes alive with exactly 3, otherwise stays Dead.
pub open spec fn next_cell(c: Cell, n: int) -> Cell {
    if c.is_alive() {
        if n == 2 || n == 3 {
            Cell::Alive
        } else {
            Cell::Dead
        }
    } else {
        if n == 3 {
            Cell::Alive
        } else {
            Cell::Dead
        }
    }
}

/// One generation: every cell evaluated against the same pre-step grid.
pub open spec fn step(cells: Seq<Cell>, w: int, h: int) -> Seq<Cell> {
    Seq::new(cells.len(), |i: int| next_cell(cells[i], neighbor_count(cells, w, h, i / w, i % w)))
}

/// `n` generations in a row.
pub open spec fn step_n(cells: Seq<Cell>, w: int, h: int, n: nat) -> Seq<Cell>
    decreases n,
{
    if n == 0 {
        cells
    } else {
        step(step_n(cells, w, h, (n - 1) as nat), w, h)
    }
}

/// Every cell of the grid is Dead.
pub open spec fn all_dead(cells: Seq<Cell>) -> bool {
    forall|i: int| 0 <= i < cells.len() ==> !(#[trigger] cells[i]).is_alive()
}

/// The grid with every cell flipped, Dead <-> Alive.
pub open spec fn flipped_all(cells: Seq<Cell>) -> Seq<Cell> {
    Seq::new(cells.len(), |i: int| cells[i].flipped())
}

/// The grid with exactly the cell at position `i` flipped.
pub open spec fn flipped_at(cells: Seq<Cell>, i: int) -> Seq<Cell> {
    cells.update(i, cells[i].flipped())
}

/// The glyph a cell renders as.
pub open spec fn glyph(c: Cell) -> char {
    if c.is_alive() {
        '◼'
    } else {
        '◻'
    }
}

/// The first `k` glyphs of row `row` of the rendering.
pub open spec fn row_prefix(cells: Seq<Cell>, w: int, row: int, k: int) -> Seq<char>
    decreases k,
{
    if k <= 0 {
        Seq::empty()
    } else {
        row_prefix(cells, w, row, k - 1).push(glyph(cells[pos(w, row, k - 1)]))
    }
}

/// The first `k` rows of the rendering, each row `w` glyphs followed by a
/// newline.
pub open spec fn grid_prefix(cells: Seq<Cell>, w: int, k: int) -> Seq<char>
    decreases k,
{
    if k <= 0 {
        Seq::empty()
    } else {
        grid_prefix(cells, w, k - 1) + row_prefix(cells, w, k - 1, w).push('\n')
    }
}

/// The textual rendering of the whole grid: `h` rows in row-major order,
/// one glyph per cell, a newline after each row.
pub open spec fn rendered(cells: Seq<Cell>, w: int, h: int) -> Seq<char> {
    grid_prefix(cells, w, h)
}

/// A row-major position lies inside the buffer of a `w` by `h` grid.
pub proof fn lemma_pos_bound(w: int, h: int, row: int, col: int)
    requires
        0 <= row < h,
        0 <= col < w,
    ensures
        0 <= pos(w, row, col) < w * h,
{
    assert(row * w + col < w * h) by (nonlinear_arith)
        requires
            0 <= row < h,
            0 <= col < w,
    ;
}

/// Row and column of a row-major position: `i` splits into `i / w` and
/// `i % w`, both in range.
pub proof fn lemma_coords_of_pos(w: int, h: int, i: int)
    requires
        0 < w,
        0 <= i < w * h,
    ensures
        0 <= i / w < h,
        0 <= i % w < w,
        pos(w, i / w, i % w) == i,
{
    vstd::arithmetic::div_mod::lemma_mod_division_less_than_divisor(i, w);
    vstd::arithmetic::div_mod::lemma_div_pos_is_pos(i, w);
    vstd::arithmetic::div_mod::lemma_multiply_divide_lt(i, w, h);
    vstd::arithmetic::div_mod::lemma_fundamental_div_mod(i, w);
    vstd::arithmetic::mul::lemma_mul_is_commutative(w, i / w);
}

/// Reading `step` back at a coordinate pair: the cell at `(row, col)` of the
/// next generation is the transition rule applied to the old cell there and
/// its old neighbor count.
pub proof fn lemma_step_at(cells: Seq<Cell>, w: int, h: int, row: int, col: int)
    requires
        cells.len() == w * h,
        0 <= row < h,
        0 <= col < w,
    ensures
        0 <= pos(w, row, col) < cells.len(),
        step(cells, w, h)[pos(w, row, col)] == next_cell(
            cells[pos(w, row, col)],
            neighbor_count(cells, w, h, row, col),
        ),
{
    lemma_pos_bound(w, h, row, col);
    let i = pos(w, row, col);
    vstd::arithmetic::div_mod::lemma_fundamental_div_mod_converse(i, w, row, col);
}

} // verus!
