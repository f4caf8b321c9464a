use vstd::prelude::*;

verus! {

/// One cell of the grid: Dead or Alive. There are no other states.
#[derive(Clone, Copy, Debug, PartialEq, Eq, Structural)]
pub enum Cell {
    Dead,
    Alive,
}

impl Cell {
    /// True exactly when the cell is Alive.
    pub open spec fn is_alive(self) -> bool {
        self is Alive
    }

    /// Contribution of this cell to a neighbor count: Alive counts 1, Dead 0.
    pub open spec fn live_count(self) -> int {
        if self is Alive {
            1
        } else {
            0
        }
    }

    /// The opposite state: Dead <-> Alive.
    pub open spec fn flipped(self) -> Cell {
        match self {
            Cell::Dead => Cell::Alive,
            Cell::Alive => Cell::Dead,
        }
    }

    /// Flip the cell in place, Dead <-> Alive.
    pub fn toggle(&mut self)
        ensures
            *final(self) == old(self).flipped(),
    {
        *self = match *self {
            Cell::Dead => Cell::Alive,
            Cell::Alive => Cell::Dead,
        };
    }

    /// The numeric value a cell adds to a neighbor count.
    pub fn as_count(self) -> (n: u8)
        ensures
            n as int == self.live_count(),
    {
        match self {
            Cell::Dead => 0,
            Cell::Alive => 1,
        }
    }
}

} // verus!
