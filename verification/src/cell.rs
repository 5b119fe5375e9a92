//! A single grid cell: an alive flag plus a visited-this-generation marker.

use vstd::prelude::*;

verus! {

/// One cell of the grid. `alive` says whether the cell is live; `checked`
/// marks that the cell's fate has already been computed during the current
/// generation advance, so that a cell reached as a neighbour of several live
/// cells is evaluated only once.
#[derive(Clone, Copy, PartialEq, Eq, Structural)]
pub struct Cell {
    pub alive: bool,
    pub checked: bool,
}

impl Cell {
    /// A fresh cell: dead and not yet visited.
    pub fn new() -> (c: Self)
        ensures
            !c.alive,
            !c.checked,
    {
        Cell { alive: false, checked: false }
    }

    pub fn is_alive(&self) -> (r: bool)
        ensures
            r == self.alive,
    {
        self.alive
    }

    pub fn is_checked(&self) -> (r: bool)
        ensures
            r == self.checked,
    {
        self.checked
    }

    pub fn set_alive(&mut self)
        ensures
            final(self).alive,
            final(self).checked == old(self).checked,
    {
        self.alive = true;
    }

    pub fn set_checked(&mut self)
        ensures
            final(self).checked,
            final(self).alive == old(self).alive,
    {
        self.checked = true;
    }
}

} // verus!
