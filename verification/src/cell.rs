use vstd::prelude::*;

verus! {

/// One cell of the grid: either `Dead` or `Alive`.
///
/// Neighbor counting sums cells numerically, with a `Dead` cell
/// weighing 0 and an `Alive` cell weighing 1.
#[derive(Clone, Copy, Debug, PartialEq, Eq, Structural)]
pub enum Cell {
    Dead,
    Alive,
}

impl Cell {
    /// The numeric weight of this cell in a neighbor count: 0 or 1.
    pub open spec fn weight(self) -> int {
        if self is Alive {
            1
        } else {
            0
        }
    }

    /// The opposite state: `Dead` for `Alive` and `Alive` for `Dead`.
    pub open spec fn flipped(self) -> Cell {
        match self {
            Cell::Dead => Cell::Alive,
            Cell::Alive => Cell::Dead,
        }
    }

    /// This cell's weight as a machine integer.
    pub fn as_count(self) -> (n: u8)
        ensures
            n == self.weight(),
    {
        match self {
            Cell::Dead => 0,
            Cell::Alive => 1,
        }
    }

    /// Flip this cell in place: `Dead` becomes `Alive` and vice versa.
    pub fn toggle(&mut self)
        ensures
            *final(self) == old(self).flipped(),
    {
        *self = match *self {
            Cell::Dead => Cell::Alive,
            Cell::Alive => Cell::Dead,
        };
    }
}

} // verus!
