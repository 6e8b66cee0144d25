//! The cell: what one grid position holds, and how it ages.

use vstd::prelude::*;

verus! {

/// What grows or burns on a cell.
#[derive(Clone, Copy, Debug, PartialEq, Eq, Hash, Structural)]
pub enum CellType {
    Empty,
    Grass,
    Tree,
    Flame,
}

/// One grid position. A cell has no identity beyond its place in the field.
#[derive(Clone, Copy, Debug, PartialEq, Eq, Structural)]
pub struct Cell {
    /// Ticks since the cell last changed its type.
    pub age: usize,
    pub cell_type: CellType,
    /// 1 when the cell may try to spread, anything else when it never will.
    pub propagation: u8,
}

/// A flame older than this goes out at the next tick.
pub const BURN_TICKS: usize = 15;

/// A cell younger than this does not spread.
pub const SPREAD_AGE: usize = 8;

impl Cell {
    /// An empty cell of age 0 that may spread.
    pub open spec fn fresh() -> Cell {
        Cell { age: 0, cell_type: CellType::Empty, propagation: 1 }
    }

    /// What a flame leaves behind: an empty cell of age 0 that never spreads.
    pub open spec fn ash() -> Cell {
        Cell { age: 0, cell_type: CellType::Empty, propagation: 0 }
    }

    /// A flame that has burnt for more than `BURN_TICKS` ticks.
    pub open spec fn burnt_out(self) -> bool {
        self.cell_type == CellType::Flame && self.age > BURN_TICKS
    }

    /// The cell can be stepped: it goes out, or its age can still grow.
    pub open spec fn can_step(self) -> bool {
        self.burnt_out() || self.age < usize::MAX
    }

    /// The cell one tick later: a burnt-out flame turns to ash, any other
    /// cell grows one tick older and is otherwise unchanged.
    pub open spec fn stepped(self) -> Cell {
        if self.burnt_out() {
            Cell::ash()
        } else {
            Cell {
                age: (self.age + 1) as usize,
                cell_type: self.cell_type,
                propagation: self.propagation,
            }
        }
    }

    /// The cell is old enough to spread and allowed to.
    pub open spec fn eligible(self) -> bool {
        self.age >= SPREAD_AGE && self.propagation == 1
    }

    pub fn new() -> (cell: Cell)
        ensures
            cell == Cell::fresh(),
    {
        Cell { age: 0, cell_type: CellType::Empty, propagation: 1 }
    }

    /// The cell one tick later. The cell itself is left as it was.
    pub fn step(&mut self) -> (next: Cell)
        requires
            old(self).can_step(),
        ensures
            *final(self) == *old(self),
            next == old(self).stepped(),
    {
        if self.age > BURN_TICKS && self.cell_type == CellType::Flame {
            return Cell { age: 0, cell_type: CellType::Empty, propagation: 0 };
        }
        Cell { age: self.age + 1, cell_type: self.cell_type, propagation: self.propagation }
    }

    /// Whether the cell is old enough to spread and allowed to.
    pub fn is_eligible(&self) -> (yes: bool)
        ensures
            yes == self.eligible(),
    {
        self.age >= SPREAD_AGE && self.propagation == 1
    }
}

impl Default for Cell {
    fn default() -> (cell: Cell)
        ensures
            cell == Cell::fresh(),
    {
        Cell { age: 0, cell_type: CellType::Empty, propagation: 1 }
    }
}

/// Stepping a cell that is no flame never makes it younger and never changes
/// what it is.
pub proof fn lemma_step_keeps_flora(cell: Cell)
    requires
        cell.cell_type != CellType::Flame,
        cell.can_step(),
    ensures
        cell.stepped().age >= cell.age,
        cell.stepped().age == cell.age + 1,
        cell.stepped().cell_type == cell.cell_type,
        cell.stepped().propagation == cell.propagation,
{
}

/// A flame goes out exactly when it is stepped at an age above `BURN_TICKS`;
/// until then it burns on, one tick older.
pub proof fn lemma_step_flame(cell: Cell)
    requires
        cell.cell_type == CellType::Flame,
    ensures
        cell.age > BURN_TICKS ==> cell.stepped() == Cell::ash(),
        cell.age <= BURN_TICKS ==> cell.stepped() == (Cell {
            age: (cell.age + 1) as usize,
            cell_type: CellType::Flame,
            propagation: cell.propagation,
        }),
{
}

} // verus!
