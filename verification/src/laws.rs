//! Grid-wide laws, proved once over the model in `rules`. Each executable
//! operation's contract ties it to that model, so these statements carry over
//! to the operations themselves.

use vstd::prelude::*;

use crate::cell::Cell;
use crate::rules::{
    all_dead, flipped_all, flipped_at, lemma_coords_of_pos, lemma_pos_bound, live_at,
    lemma_step_at, neighbor_coords, neighbor_count, next_cell, pos, step, step_n, wrap_dec,
    wrap_inc,
};
use crate::universe::Universe;

verus! {

/// Wraparound at the corner: on any grid with at least one row and one
/// column, the toroidal neighborhood of cell `(0, 0)` includes the
/// opposite-corner cell `(h - 1, w - 1)` — its north-west neighbor.
pub proof fn lemma_corner_neighborhood_wraps(w: int, h: int)
    requires
        1 <= w,
        1 <= h,
    ensures
        neighbor_coords(w, h, 0, 0).contains((h - 1, w - 1)),
{
    let ns = neighbor_coords(w, h, 0, 0);
    assert(ns[0] == (wrap_dec(0, h), wrap_dec(0, w)));
    assert(ns[0] == (h - 1, w - 1));
}

/// The corner really sees across the seam: when the opposite-corner cell
/// `(h - 1, w - 1)` is Alive, it shows up in the live neighbor count of
/// `(0, 0)`.
pub proof fn lemma_corner_sees_opposite_corner(cells: Seq<Cell>, w: int, h: int)
    requires
        1 <= w,
        1 <= h,
        cells.len() == w * h,
        cells[pos(w, h - 1, w - 1)].is_alive(),
    ensures
        neighbor_count(cells, w, h, 0, 0) >= 1,
{
    assert(live_at(cells, w, wrap_dec(0, h), wrap_dec(0, w)) == 1);
}

/// Advancing a generation is deterministic: the next grid is a function of
/// the current cells and dimensions alone. `tick` ensures its new buffer
/// equals `step` of its old state, so two universes holding identical grids
/// hold identical grids again after one tick each.
pub proof fn lemma_tick_deterministic(a: Universe, b: Universe)
    requires
        a.spec_width() == b.spec_width(),
        a.spec_height() == b.spec_height(),
        a.grid() == b.grid(),
    ensures
        step(a.grid(), a.spec_width(), a.spec_height()) == step(
            b.grid(),
            b.spec_width(),
            b.spec_height(),
        ),
{
}

/// One generation of an entirely dead grid is the same entirely dead grid:
/// a dead cell with zero live neighbors stays dead.
pub proof fn lemma_step_of_dead(cells: Seq<Cell>, w: int, h: int)
    requires
        cells.len() == w * h,
        0 <= w,
        0 <= h,
        all_dead(cells),
    ensures
        step(cells, w, h) == cells,
{
    if cells.len() == 0 {
        assert(step(cells, w, h) =~= cells);
    } else {
        assert(w > 0 && h > 0) by (nonlinear_arith)
            requires
                0 <= w,
                0 <= h,
                w * h > 0,
        ;
        assert forall|i: int| 0 <= i < cells.len() implies step(cells, w, h)[i] == cells[i] by {
            let r = i / w;
            let c = i % w;
            vstd::arithmetic::div_mod::lemma_mod_division_less_than_divisor(i, w);
            vstd::arithmetic::div_mod::lemma_div_pos_is_pos(i, w);
            vstd::arithmetic::div_mod::lemma_multiply_divide_lt(i, w, h);
            assert(0 <= r < h && 0 <= c < w);
            lemma_pos_bound(w, h, wrap_dec(r, h), wrap_dec(c, w));
            lemma_pos_bound(w, h, wrap_dec(r, h), c);
            lemma_pos_bound(w, h, wrap_dec(r, h), wrap_inc(c, w));
            lemma_pos_bound(w, h, r, wrap_dec(c, w));
            lemma_pos_bound(w, h, r, wrap_inc(c, w));
            lemma_pos_bound(w, h, wrap_inc(r, h), wrap_dec(c, w));
            lemma_pos_bound(w, h, wrap_inc(r, h), c);
            lemma_pos_bound(w, h, wrap_inc(r, h), wrap_inc(c, w));
            assert(neighbor_count(cells, w, h, r, c) == 0);
            assert(next_cell(cells[i], 0) == cells[i]);
        }
        assert(step(cells, w, h) =~= cells);
    }
}

/// A cleared grid stays entirely dead for any number of generations: no live
/// cell can spontaneously appear.
pub proof fn lemma_cleared_grid_stays_dead(cells: Seq<Cell>, w: int, h: int, n: nat)
    requires
        cells.len() == w * h,
        0 <= w,
        0 <= h,
        all_dead(cells),
    ensures
        step_n(cells, w, h, n) == cells,
        all_dead(step_n(cells, w, h, n)),
    decreases n,
{
    if n > 0 {
        lemma_cleared_grid_stays_dead(cells, w, h, (n - 1) as nat);
        lemma_step_of_dead(cells, w, h);
    }
}

/// Exactly the four cells of the 2 by 2 block with top-left corner `(r, c)`
/// are Alive; every other cell is Dead.
pub open spec fn block_pattern(cells: Seq<Cell>, w: int, h: int, r: int, c: int) -> bool {
    forall|x: int, y: int|
        0 <= x < h && 0 <= y < w ==> ((#[trigger] cells[pos(w, x, y)]).is_alive() <==> ((x == r
            || x == r + 1) && (y == c || y == c + 1)))
}

/// A 2 by 2 block of Alive cells with everything else Dead is a still life:
/// on a grid of at least 4 by 4 cells, where wraparound cannot bring the
/// block's own cells back as extra neighbors, one generation leaves the grid
/// unchanged. Each block cell sees exactly its 3 block mates and survives;
/// every dead cell sees at most 2 block cells and stays dead.
#[verifier::rlimit(100)]
pub proof fn lemma_block_is_still_life(cells: Seq<Cell>, w: int, h: int, r: int, c: int)
    requires
        cells.len() == w * h,
        4 <= w,
        4 <= h,
        0 <= r,
        r + 1 < h,
        0 <= c,
        c + 1 < w,
        block_pattern(cells, w, h, r, c),
    ensures
        step(cells, w, h) == cells,
{
    assert forall|i: int| 0 <= i < cells.len() implies step(cells, w, h)[i] == cells[i] by {
        lemma_coords_of_pos(w, h, i);
        let x = i / w;
        let y = i % w;
        let xn = wrap_dec(x, h);
        let xs = wrap_inc(x, h);
        let yw = wrap_dec(y, w);
        let ye = wrap_inc(y, w);
        assert(0 <= xn < h && 0 <= xs < h && 0 <= yw < w && 0 <= ye < w);
        assert(live_at(cells, w, xn, yw) == if (xn == r || xn == r + 1) && (yw == c || yw == c
            + 1) {
            1int
        } else {
            0int
        });
        assert(live_at(cells, w, xn, y) == if (xn == r || xn == r + 1) && (y == c || y == c + 1) {
            1int
        } else {
            0int
        });
        assert(live_at(cells, w, xn, ye) == if (xn == r || xn == r + 1) && (ye == c || ye == c
            + 1) {
            1int
        } else {
            0int
        });
        assert(live_at(cells, w, x, yw) == if (x == r || x == r + 1) && (yw == c || yw == c + 1) {
            1int
        } else {
            0int
        });
        assert(live_at(cells, w, x, ye) == if (x == r || x == r + 1) && (ye == c || ye == c + 1) {
            1int
        } else {
            0int
        });
        assert(live_at(cells, w, xs, yw) == if (xs == r || xs == r + 1) && (yw == c || yw == c
            + 1) {
            1int
        } else {
            0int
        });
        assert(live_at(cells, w, xs, y) == if (xs == r || xs == r + 1) && (y == c || y == c + 1) {
            1int
        } else {
            0int
        });
        assert(live_at(cells, w, xs, ye) == if (xs == r || xs == r + 1) && (ye == c || ye == c
            + 1) {
            1int
        } else {
            0int
        });
        assert(cells[i].is_alive() <==> ((x == r || x == r + 1) && (y == c || y == c + 1)));
        assert(step(cells, w, h)[i] == cells[i]);
    }
    assert(step(cells, w, h) =~= cells);
}

/// Exactly the three cells of row `r`, columns `c - 1`, `c` and `c + 1`,
/// are Alive; every other cell is Dead (a horizontal blinker centered at
/// `(r, c)`).
pub open spec fn horizontal_triple(cells: Seq<Cell>, w: int, h: int, r: int, c: int) -> bool {
    forall|x: int, y: int|
        0 <= x < h && 0 <= y < w ==> ((#[trigger] cells[pos(w, x, y)]).is_alive() <==> (x == r && (
        y == c - 1 || y == c || y == c + 1)))
}

/// Exactly the three cells of column `c`, rows `r - 1`, `r` and `r + 1`,
/// are Alive; every other cell is Dead (a vertical blinker centered at
/// `(r, c)`).
pub open spec fn vertical_triple(cells: Seq<Cell>, w: int, h: int, r: int, c: int) -> bool {
    forall|x: int, y: int|
        0 <= x < h && 0 <= y < w ==> ((#[trigger] cells[pos(w, x, y)]).is_alive() <==> (y == c && (
        x == r - 1 || x == r || x == r + 1)))
}

/// One generation turns a horizontal blinker centered at `(r, c)` into the
/// vertical blinker with the same center: the center survives with two
/// neighbors, the ends die with one, and the cells directly above and below
/// the center are born with three.
#[verifier::rlimit(100)]
pub proof fn lemma_blinker_turns_vertical(cells: Seq<Cell>, w: int, h: int, r: int, c: int)
    requires
        cells.len() == w * h,
        4 <= w,
        4 <= h,
        1 <= r,
        r + 1 < h,
        1 <= c,
        c + 1 < w,
        horizontal_triple(cells, w, h, r, c),
    ensures
        vertical_triple(step(cells, w, h), w, h, r, c),
{
    assert forall|x: int, y: int| 0 <= x < h && 0 <= y < w implies ((#[trigger] step(
        cells,
        w,
        h,
    )[pos(w, x, y)]).is_alive() <==> (y == c && (x == r - 1 || x == r || x == r + 1))) by {
        lemma_step_at(cells, w, h, x, y);
        let xn = wrap_dec(x, h);
        let xs = wrap_inc(x, h);
        let yw = wrap_dec(y, w);
        let ye = wrap_inc(y, w);
        assert(0 <= xn < h && 0 <= xs < h && 0 <= yw < w && 0 <= ye < w);
        assert(live_at(cells, w, xn, yw) == if xn == r && (yw == c - 1 || yw == c || yw == c + 1) {
            1int
        } else {
            0int
        });
        assert(live_at(cells, w, xn, y) == if xn == r && (y == c - 1 || y == c || y == c + 1) {
            1int
        } else {
            0int
        });
        assert(live_at(cells, w, xn, ye) == if xn == r && (ye == c - 1 || ye == c || ye == c + 1) {
            1int
        } else {
            0int
        });
        assert(live_at(cells, w, x, yw) == if x == r && (yw == c - 1 || yw == c || yw == c + 1) {
            1int
        } else {
            0int
        });
        assert(live_at(cells, w, x, ye) == if x == r && (ye == c - 1 || ye == c || ye == c + 1) {
            1int
        } else {
            0int
        });
        assert(live_at(cells, w, xs, yw) == if xs == r && (yw == c - 1 || yw == c || yw == c + 1) {
            1int
        } else {
            0int
        });
        assert(live_at(cells, w, xs, y) == if xs == r && (y == c - 1 || y == c || y == c + 1) {
            1int
        } else {
            0int
        });
        assert(live_at(cells, w, xs, ye) == if xs == r && (ye == c - 1 || ye == c || ye == c + 1) {
            1int
        } else {
            0int
        });
        assert(cells[pos(w, x, y)].is_alive() <==> (x == r && (y == c - 1 || y == c || y == c
            + 1)));
    }
}

/// One generation turns a vertical blinker centered at `(r, c)` back into
/// the horizontal blinker with the same center.
#[verifier::rlimit(100)]
pub proof fn lemma_blinker_turns_horizontal(cells: Seq<Cell>, w: int, h: int, r: int, c: int)
    requires
        cells.len() == w * h,
        4 <= w,
        4 <= h,
        1 <= r,
        r + 1 < h,
        1 <= c,
        c + 1 < w,
        vertical_triple(cells, w, h, r, c),
    ensures
        horizontal_triple(step(cells, w, h), w, h, r, c),
{
    assert forall|x: int, y: int| 0 <= x < h && 0 <= y < w implies ((#[trigger] step(
        cells,
        w,
        h,
    )[pos(w, x, y)]).is_alive() <==> (x == r && (y == c - 1 || y == c || y == c + 1))) by {
        lemma_step_at(cells, w, h, x, y);
        let xn = wrap_dec(x, h);
        let xs = wrap_inc(x, h);
        let yw = wrap_dec(y, w);
        let ye = wrap_inc(y, w);
        assert(0 <= xn < h && 0 <= xs < h && 0 <= yw < w && 0 <= ye < w);
        assert(live_at(cells, w, xn, yw) == if yw == c && (xn == r - 1 || xn == r || xn == r + 1) {
            1int
        } else {
            0int
        });
        assert(live_at(cells, w, xn, y) == if y == c && (xn == r - 1 || xn == r || xn == r + 1) {
            1int
        } else {
            0int
        });
        assert(live_at(cells, w, xn, ye) == if ye == c && (xn == r - 1 || xn == r || xn == r + 1) {
            1int
        } else {
            0int
        });
        assert(live_at(cells, w, x, yw) == if yw == c && (x == r - 1 || x == r || x == r + 1) {
            1int
        } else {
            0int
        });
        assert(live_at(cells, w, x, ye) == if ye == c && (x == r - 1 || x == r || x == r + 1) {
            1int
        } else {
            0int
        });
        assert(live_at(cells, w, xs, yw) == if yw == c && (xs == r - 1 || xs == r || xs == r + 1) {
            1int
        } else {
            0int
        });
        assert(live_at(cells, w, xs, y) == if y == c && (xs == r - 1 || xs == r || xs == r + 1) {
            1int
        } else {
            0int
        });
        assert(live_at(cells, w, xs, ye) == if ye == c && (xs == r - 1 || xs == r || xs == r + 1) {
            1int
        } else {
            0int
        });
        assert(cells[pos(w, x, y)].is_alive() <==> (y == c && (x == r - 1 || x == r || x == r
            + 1)));
    }
}

/// The blinker has period two: a horizontal blinker turns vertical after one
/// generation and is back, cell for cell, after two.
pub proof fn lemma_blinker_period_two(cells: Seq<Cell>, w: int, h: int, r: int, c: int)
    requires
        cells.len() == w * h,
        4 <= w,
        4 <= h,
        1 <= r,
        r + 1 < h,
        1 <= c,
        c + 1 < w,
        horizontal_triple(cells, w, h, r, c),
    ensures
        vertical_triple(step(cells, w, h), w, h, r, c),
        step(step(cells, w, h), w, h) == cells,
{
    lemma_blinker_turns_vertical(cells, w, h, r, c);
    lemma_blinker_turns_horizontal(step(cells, w, h), w, h, r, c);
    let back = step(step(cells, w, h), w, h);
    assert forall|i: int| 0 <= i < cells.len() implies back[i] == cells[i] by {
        lemma_coords_of_pos(w, h, i);
        let x = i / w;
        let y = i % w;
        assert(back[pos(w, x, y)].is_alive() <==> (x == r && (y == c - 1 || y == c || y == c
            + 1)));
        assert(cells[pos(w, x, y)].is_alive() <==> (x == r && (y == c - 1 || y == c || y == c
            + 1)));
        assert(back[i].is_alive() <==> cells[i].is_alive());
    }
    assert(step(step(cells, w, h), w, h) =~= cells);
}

/// Inverting the grid is an involution: flipping every cell twice restores
/// the original grid.
pub proof fn lemma_invert_involution(cells: Seq<Cell>)
    ensures
        flipped_all(flipped_all(cells)) == cells,
{
    assert forall|i: int| 0 <= i < cells.len() implies flipped_all(flipped_all(cells))[i]
        == cells[i] by {
        assert(cells[i].flipped().flipped() == cells[i]);
    }
    assert(flipped_all(flipped_all(cells)) =~= cells);
}

/// Toggling one cell twice restores the grid: the targeted coordinate gets
/// its old value back and, both times, no other coordinate is touched.
pub proof fn lemma_toggle_twice_restores(cells: Seq<Cell>, i: int)
    requires
        0 <= i < cells.len(),
    ensures
        flipped_at(flipped_at(cells, i), i) == cells,
{
    assert(flipped_at(flipped_at(cells, i), i) =~= cells);
}

} // verus!
