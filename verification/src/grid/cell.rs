//! One position of the board: what lies there and what the player sees.

use vstd::prelude::*;

verus! {

/// What a cell holds. It is fixed when the cell is generated.
#[derive(Clone, Copy, Debug, PartialEq, Eq, Structural)]
pub enum CellValue {
    Mine,
    Empty,
}

/// What the player has done with a cell.
#[derive(Clone, Copy, Debug, PartialEq, Eq, Structural)]
pub enum CellState {
    Hidden,
    Flagged,
    Revealed,
}

impl CellState {
    /// The steps a cell's state may take: a hidden cell may be flagged or
    /// revealed, a flagged cell may be hidden again, and a revealed cell
    /// stays revealed.
    pub open spec fn may_become(self, next: CellState) -> bool {
        ||| self == next
        ||| self is Hidden && next is Flagged
        ||| self is Flagged && next is Hidden
        ||| self is Hidden && next is Revealed
    }
}

#[derive(Clone, Copy, Debug, PartialEq, Eq, Structural)]
pub struct Cell {
    pub value: CellValue,
    pub state: CellState,
}

impl Cell {
    /// A cell as the generator makes it: hidden.
    pub open spec fn fresh(value: CellValue) -> Cell {
        Cell { value, state: CellState::Hidden }
    }

    pub open spec fn spec_uncover(self) -> Cell {
        if self.state is Hidden {
            Cell { value: self.value, state: CellState::Revealed }
        } else {
            self
        }
    }

    pub open spec fn spec_flag(self) -> Cell {
        if self.state is Hidden {
            Cell { value: self.value, state: CellState::Flagged }
        } else {
            self
        }
    }

    pub open spec fn spec_unflag(self) -> Cell {
        if self.state is Flagged {
            Cell { value: self.value, state: CellState::Hidden }
        } else {
            self
        }
    }

    pub fn new(value: CellValue) -> (cell: Self)
        ensures
            cell == Cell::fresh(value),
    {
        Self { value, state: CellState::Hidden }
    }

    /// Reveals a hidden cell; a flagged or revealed cell stays as it is.
    pub fn uncover(&mut self)
        ensures
            *final(self) == old(self).spec_uncover(),
            old(self).state.may_become(final(self).state),
    {
        if let CellState::Hidden = self.state {
            self.state = CellState::Revealed;
        }
    }

    /// Flags a hidden cell; a flagged or revealed cell stays as it is.
    pub fn flag(&mut self)
        ensures
            *final(self) == old(self).spec_flag(),
            old(self).state.may_become(final(self).state),
    {
        if let CellState::Hidden = self.state {
            self.state = CellState::Flagged;
        }
    }

    /// Takes the flag off a flagged cell; any other cell stays as it is.
    pub fn unflag(&mut self)
        ensures
            *final(self) == old(self).spec_unflag(),
            old(self).state.may_become(final(self).state),
    {
        if let CellState::Flagged = self.state {
            self.state = CellState::Hidden;
        }
    }
}

} // verus!
