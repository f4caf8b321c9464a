//! The grid engine: a `Universe` owns its width, height and flat row-major
//! cell buffer, and offers construction, generation advance, direct cell
//! access, bulk mutation and a textual rendering.

use vstd::prelude::*;

use vstd::string::StringExecFns;

use crate::cell::Cell;
use crate::rules::{
    all_dead, flipped_all, flipped_at, grid_prefix, lemma_pos_bound, lemma_step_at,
    neighbor_count, pos, rendered, row_prefix, step, wrap_dec, wrap_inc,
};

verus! {

/// A toroidal Game of Life grid. `cells` holds `width * height` cells in
/// row-major order: the cell at row `r`, column `c` sits at `r * width + c`.
pub struct Universe {
    width: u32,
    height: u32,
    cells: Vec<Cell>,
}

impl Universe {
    /// The width, as a mathematical integer.
    pub closed spec fn spec_width(self) -> int {
        self.width as int
    }

    /// The height, as a mathematical integer.
    pub closed spec fn spec_height(self) -> int {
        self.height as int
    }

    /// The cell buffer, as a sequence.
    pub closed spec fn grid(self) -> Seq<Cell> {
        self.cells@
    }

    /// Well-formedness: the buffer holds exactly `width * height` cells, and
    /// that product fits the machine word the indexing arithmetic runs in.
    pub open spec fn wf(self) -> bool {
        &&& self.grid().len() == self.spec_width() * self.spec_height()
        &&& self.spec_width() * self.spec_height() <= u32::MAX as int
    }

    /// A buffer of `n` Dead cells.
    fn dead_cells(n: usize) -> (v: Vec<Cell>)
        ensures
            v@.len() == n,
            all_dead(v@),
    {
        let mut v: Vec<Cell> = Vec::new();
        let mut i: usize = 0;
        while i < n
            invariant
                i <= n,
                v@.len() == i,
                all_dead(v@),
            decreases n - i,
        {
            v.push(Cell::Dead);
            i = i + 1;
        }
        v
    }

    /// A fresh universe of the default 128 by 128 size with every cell Dead.
    /// Seeding an initial pattern (for instance at random) is the host's
    /// business, through `set_cells` or `toggle_cell`.
    pub fn new() -> (u: Universe)
        ensures
            u.wf(),
            u.spec_width() == 128,
            u.spec_height() == 128,
            all_dead(u.grid()),
    {
        let width: u32 = 128;
        let height: u32 = 128;
        let cells = Self::dead_cells((width * height) as usize);
        Universe { width, height, cells }
    }

    /// The current width.
    pub fn width(&self) -> (w: u32)
        ensures
            w as int == self.spec_width(),
    {
        self.width
    }

    /// The current height.
    pub fn height(&self) -> (h: u32)
        ensures
            h as int == self.spec_height(),
    {
        self.height
    }

    /// Row-major buffer index of `(row, column)`.
    fn get_index(&self, row: u32, column: u32) -> (i: usize)
        requires
            self.wf(),
            (row as int) < self.spec_height(),
            (column as int) < self.spec_width(),
        ensures
            i as int == pos(self.spec_width(), row as int, column as int),
            i < self.grid().len(),
    {
        proof {
            lemma_pos_bound(self.spec_width(), self.spec_height(), row as int, column as int);
        }
        (row * self.width + column) as usize
    }

    /// How many of the eight toroidal neighbors of `(row, column)` are Alive.
    /// On an axis of extent 1 or 2, wraparound can reach the same neighbor
    /// twice and it then counts twice; the cell itself is never counted, since
    /// every neighbor offset is one step away on at least one axis.
    pub fn live_neighbor_count(&self, row: u32, column: u32) -> (n: u8)
        requires
            self.wf(),
            (row as int) < self.spec_height(),
            (column as int) < self.spec_width(),
        ensures
            n as int == neighbor_count(
                self.grid(),
                self.spec_width(),
                self.spec_height(),
                row as int,
                column as int,
            ),
            n <= 8,
    {
        let north = if row == 0 {
            self.height - 1
        } else {
            row - 1
        };
        let south = if row == self.height - 1 {
            0
        } else {
            row + 1
        };
        let west = if column == 0 {
            self.width - 1
        } else {
            column - 1
        };
        let east = if column == self.width - 1 {
            0
        } else {
            column + 1
        };
        proof {
            assert(north as int == wrap_dec(row as int, self.spec_height()));
            assert(south as int == wrap_inc(row as int, self.spec_height()));
            assert(west as int == wrap_dec(column as int, self.spec_width()));
            assert(east as int == wrap_inc(column as int, self.spec_width()));
        }
        let mut count: u8 = 0;
        let nw = self.get_index(north, west);
        count = count + self.cells[nw].as_count();
        let n_ = self.get_index(north, column);
        count = count + self.cells[n_].as_count();
        let ne = self.get_index(north, east);
        count = count + self.cells[ne].as_count();
        let w_ = self.get_index(row, west);
        count = count + self.cells[w_].as_count();
        let e_ = self.get_index(row, east);
        count = count + self.cells[e_].as_count();
        let sw = self.get_index(south, west);
        count = count + self.cells[sw].as_count();
        let s_ = self.get_index(south, column);
        count = count + self.cells[s_].as_count();
        let se = self.get_index(south, east);
        count = count + self.cells[se].as_count();
        count
    }

    /// Advance the whole grid by one generation. Every cell is evaluated
    /// against the pre-tick buffer, and the computed next generation replaces
    /// the buffer only after every cell has been evaluated.
    pub fn tick(&mut self)
        requires
            old(self).wf(),
        ensures
            final(self).wf(),
            final(self).spec_width() == old(self).spec_width(),
            final(self).spec_height() == old(self).spec_height(),
            final(self).grid() == step(
                old(self).grid(),
                old(self).spec_width(),
                old(self).spec_height(),
            ),
    {
        let ghost w = old(self).spec_width();
        let ghost h = old(self).spec_height();
        let mut next: Vec<Cell> = Vec::new();
        let mut row: u32 = 0;
        while row < self.height
            invariant
                *self == *old(self),
                self.wf(),
                row <= self.height,
                w == self.spec_width(),
                h == self.spec_height(),
                next@.len() == row as int * w,
                forall|k: int|
                    0 <= k < next@.len() ==> next@[k] == step(self.grid(), w, h)[k],
            decreases self.spec_height() - row,
        {
            let mut col: u32 = 0;
            while col < self.width
                invariant
                    *self == *old(self),
                    self.wf(),
                    row < self.height,
                    col <= self.width,
                    w == self.spec_width(),
                    h == self.spec_height(),
                    next@.len() == row as int * w + col,
                    forall|k: int|
                        0 <= k < next@.len() ==> next@[k] == step(self.grid(), w, h)[k],
                decreases self.spec_width() - col,
            {
                let idx = self.get_index(row, col);
                let cell = self.cells[idx];
                let live_neighbors = self.live_neighbor_count(row, col);
                let next_cell_value = match cell {
                    Cell::Alive => if live_neighbors == 2 || live_neighbors == 3 {
                        Cell::Alive
                    } else {
                        Cell::Dead
                    },
                    Cell::Dead => if live_neighbors == 3 {
                        Cell::Alive
                    } else {
                        Cell::Dead
                    },
                };
                proof {
                    lemma_step_at(self.grid(), w, h, row as int, col as int);
                    assert(next_cell_value == step(self.grid(), w, h)[pos(w, row as int, col as int)]);
                }
                next.push(next_cell_value);
                col = col + 1;
            }
            proof {
                assert((row as int + 1) * w == row as int * w + w) by (nonlinear_arith);
            }
            row = row + 1;
        }
        proof {
            assert(next@.len() == h * w);
            assert(h * w == w * h) by (nonlinear_arith);
        }
        self.cells = next;
        proof {
            assert(self.grid() =~= step(old(self).grid(), w, h));
        }
    }

    /// Set the width. The whole buffer is replaced by Dead cells of the new
    /// size: a destructive reset, the old pattern is lost. The height keeps
    /// its current value.
    pub fn set_width(&mut self, width: u32)
        requires
            width as int * old(self).spec_height() <= u32::MAX as int,
        ensures
            final(self).wf(),
            final(self).spec_width() == width as int,
            final(self).spec_height() == old(self).spec_height(),
            final(self).grid().len() == width as int * old(self).spec_height(),
            all_dead(final(self).grid()),
    {
        self.width = width;
        let n = (self.width * self.height) as usize;
        self.cells = Self::dead_cells(n);
    }

    /// Set the height. The whole buffer is replaced by Dead cells of the new
    /// size: a destructive reset, the old pattern is lost. The width keeps
    /// its current value.
    pub fn set_height(&mut self, height: u32)
        requires
            old(self).spec_width() * height as int <= u32::MAX as int,
        ensures
            final(self).wf(),
            final(self).spec_width() == old(self).spec_width(),
            final(self).spec_height() == height as int,
            final(self).grid().len() == old(self).spec_width() * height as int,
            all_dead(final(self).grid()),
    {
        self.height = height;
        let n = (self.width * self.height) as usize;
        self.cells = Self::dead_cells(n);
    }

    /// Flip exactly the cell at `(row, col)`; every other cell is untouched.
    pub fn toggle_cell(&mut self, row: u32, col: u32)
        requires
            old(self).wf(),
            (row as int) < old(self).spec_height(),
            (col as int) < old(self).spec_width(),
        ensures
            final(self).wf(),
            final(self).spec_width() == old(self).spec_width(),
            final(self).spec_height() == old(self).spec_height(),
            final(self).grid() == flipped_at(
                old(self).grid(),
                pos(old(self).spec_width(), row as int, col as int),
            ),
    {
        let idx = self.get_index(row, col);
        let mut cell = self.cells[idx];
        cell.toggle();
        self.cells.set(idx, cell);
    }

    /// Set every cell to Dead.
    pub fn clear(&mut self)
        ensures
            final(self).spec_width() == old(self).spec_width(),
            final(self).spec_height() == old(self).spec_height(),
            final(self).grid().len() == old(self).grid().len(),
            all_dead(final(self).grid()),
            old(self).wf() ==> final(self).wf(),
    {
        let n = self.cells.len();
        let mut i: usize = 0;
        while i < n
            invariant
                i <= n,
                self.width == old(self).width,
                self.height == old(self).height,
                self.grid().len() == n,
                n == old(self).grid().len(),
                forall|k: int| 0 <= k < i ==> !(#[trigger] self.grid()[k]).is_alive(),
            decreases n - i,
        {
            self.cells.set(i, Cell::Dead);
            i = i + 1;
        }
    }

    /// Flip every cell, Dead <-> Alive, each independently.
    pub fn invert(&mut self)
        ensures
            final(self).spec_width() == old(self).spec_width(),
            final(self).spec_height() == old(self).spec_height(),
            final(self).grid() == flipped_all(old(self).grid()),
            old(self).wf() ==> final(self).wf(),
    {
        let n = self.cells.len();
        let mut i: usize = 0;
        while i < n
            invariant
                i <= n,
                self.width == old(self).width,
                self.height == old(self).height,
                self.grid().len() == n,
                n == old(self).grid().len(),
                forall|k: int|
                    0 <= k < i ==> #[trigger] self.grid()[k] == old(self).grid()[k].flipped(),
                forall|k: int| i <= k < n ==> #[trigger] self.grid()[k] == old(self).grid()[k],
            decreases n - i,
        {
            let mut cell = self.cells[i];
            cell.toggle();
            self.cells.set(i, cell);
            i = i + 1;
        }
        proof {
            assert(self.grid() =~= flipped_all(old(self).grid()));
        }
    }

    /// A read-only view of the whole cell buffer, row-major; it borrows the
    /// universe, so it is gone before the next mutating call.
    pub fn cells(&self) -> (cells: &[Cell])
        ensures
            cells@ == self.grid(),
    {
        self.cells.as_slice()
    }

    /// The dead and alive values of the entire universe, row-major.
    pub fn get_cells(&self) -> (cells: &[Cell])
        ensures
            cells@ == self.grid(),
    {
        self.cells.as_slice()
    }

    /// Reset the grid and set exactly the listed `(row, col)` coordinates
    /// Alive; every other cell ends up Dead.
    pub fn set_cells(&mut self, cells: &[(u32, u32)])
        requires
            old(self).wf(),
            forall|i: int|
                0 <= i < cells@.len() ==> (#[trigger] cells@[i]).0 < old(self).spec_height()
                    && cells@[i].1 < old(self).spec_width(),
        ensures
            final(self).wf(),
            final(self).spec_width() == old(self).spec_width(),
            final(self).spec_height() == old(self).spec_height(),
            final(self).grid().len() == old(self).grid().len(),
            forall|k: int|
                0 <= k < final(self).grid().len() ==> ((#[trigger] final(self).grid()[k]).is_alive()
                    <==> exists|i: int|
                    0 <= i < cells@.len() && pos(
                        old(self).spec_width(),
                        (#[trigger] cells@[i]).0 as int,
                        cells@[i].1 as int,
                    ) == k),
    {
        self.clear();
        let ghost w = old(self).spec_width();
        let n = cells.len();
        let mut j: usize = 0;
        while j < n
            invariant
                j <= n,
                n == cells@.len(),
                self.wf(),
                self.spec_width() == old(self).spec_width(),
                self.spec_height() == old(self).spec_height(),
                self.grid().len() == old(self).grid().len(),
                w == self.spec_width(),
                forall|i: int|
                    0 <= i < cells@.len() ==> (#[trigger] cells@[i]).0 < self.spec_height()
                        && cells@[i].1 < self.spec_width(),
                forall|k: int|
                    0 <= k < self.grid().len() ==> ((#[trigger] self.grid()[k]).is_alive()
                        <==> exists|i: int|
                        0 <= i < j && pos(w, (#[trigger] cells@[i]).0 as int, cells@[i].1 as int)
                            == k),
            decreases n - j,
        {
            let rc = cells[j];
            let idx = self.get_index(rc.0, rc.1);
            self.cells.set(idx, Cell::Alive);
            proof {
                assert forall|k: int| 0 <= k < self.grid().len() implies ((
                #[trigger] self.grid()[k]).is_alive() <==> exists|i: int|
                    0 <= i < j + 1 && pos(w, (#[trigger] cells@[i]).0 as int, cells@[i].1 as int)
                        == k) by {
                    if k == idx {
                        assert(pos(w, cells@[j as int].0 as int, cells@[j as int].1 as int) == k);
                    } else {
                        if self.grid()[k].is_alive() {
                            let i0 = choose|i: int|
                                0 <= i < j && pos(
                                    w,
                                    (#[trigger] cells@[i]).0 as int,
                                    cells@[i].1 as int,
                                ) == k;
                            assert(0 <= i0 < j + 1 && pos(
                                w,
                                cells@[i0].0 as int,
                                cells@[i0].1 as int,
                            ) == k);
                        }
                    }
                }
            }
            j = j + 1;
        }
    }
}

impl Universe {
    /// The textual rendering of the grid: row by row, one glyph per cell
    /// (filled for Alive, hollow for Dead), a newline after each row.
    pub fn render(&self) -> (s: String)
        requires
            self.wf(),
        ensures
            s@ == rendered(self.grid(), self.spec_width(), self.spec_height()),
    {
        let ghost g = self.grid();
        let ghost w = self.spec_width();
        let ghost h = self.spec_height();
        let mut out = String::new();
        let mut row: u32 = 0;
        proof {
            assert(out@ =~= grid_prefix(g, w, 0));
        }
        while row < self.height
            invariant
                self.wf(),
                g == self.grid(),
                w == self.spec_width(),
                h == self.spec_height(),
                row <= self.height,
                out@ == grid_prefix(g, w, row as int),
            decreases h - row,
        {
            let mut col: u32 = 0;
            proof {
                assert(out@ =~= grid_prefix(g, w, row as int) + row_prefix(g, w, row as int, 0));
            }
            while col < self.width
                invariant
                    self.wf(),
                    g == self.grid(),
                    w == self.spec_width(),
                    h == self.spec_height(),
                    row < self.height,
                    col <= self.width,
                    out@ == grid_prefix(g, w, row as int) + row_prefix(
                        g,
                        w,
                        row as int,
                        col as int,
                    ),
                decreases w - col,
            {
                let idx = self.get_index(row, col);
                match self.cells[idx] {
                    Cell::Alive => out.append("◼"),
                    Cell::Dead => out.append("◻"),
                }
                proof {
                    reveal_strlit("◼");
                    reveal_strlit("◻");
                    assert("◼"@ =~= seq!['◼']);
                    assert("◻"@ =~= seq!['◻']);
                    assert(out@ =~= grid_prefix(g, w, row as int) + row_prefix(
                        g,
                        w,
                        row as int,
                        col as int + 1,
                    ));
                }
                col = col + 1;
            }
            out.append("\n");
            proof {
                reveal_strlit("\n");
                assert("\n"@ =~= seq!['\n']);
                assert(out@ =~= grid_prefix(g, w, row as int + 1));
            }
            row = row + 1;
        }
        out
    }
}

/// A greeting from the library, for the host to show.
pub fn greet() -> (s: String)
    ensures
        s@ == "Hello, wasm-game-of-life!"@,
{
    "Hello, wasm-game-of-life!".to_owned()
}

} // verus!
