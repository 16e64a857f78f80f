//! Brian's-Brain-like automaton: three states (on, dying, off) with a strict
//! self-transition cycle on -> dying -> off -> on, overridden by the birth
//! condition: an off cell with exactly two "on" Moore neighbors turns on.

use vstd::prelude::*;

use crate::cell::BasicCell;
use crate::cell::random_draw;
use crate::common::Dimensions;

verus! {

/// One cell of the Brian's-Brain-like automaton.
#[derive(Clone, Copy, Debug, PartialEq, Eq, Structural)]
pub enum Cell {
    On,
    Dying,
    Off,
}

impl BasicCell for Cell {
    open spec fn spec_default() -> Self {
        Cell::Off
    }

    open spec fn spec_next(self) -> Self {
        match self {
            Cell::On => Cell::Dying,
            Cell::Dying => Cell::Off,
            Cell::Off => Cell::On,
        }
    }

    open spec fn spec_is_on(self) -> bool {
        self is On
    }

    open spec fn spec_transition(self, on_neighbors: nat) -> Self {
        match self {
            Cell::On => Cell::Dying,
            Cell::Dying => Cell::Off,
            Cell::Off => if on_neighbors == 2 {
                Cell::On
            } else {
                Cell::Off
            },
        }
    }

    open spec fn spec_from_draw(draw: u64) -> Self {
        if draw % 10 < 9 {
            Cell::Off
        } else {
            Cell::On
        }
    }

    fn default_cell() -> Self {
        Cell::Off
    }

    fn next(&mut self) {
        *self = match *self {
            Cell::On => Cell::Dying,
            Cell::Dying => Cell::Off,
            Cell::Off => Cell::On,
        };
    }

    fn is_on(&self) -> bool {
        matches!(*self, Cell::On)
    }

    fn transition(&self, on_neighbors: usize) -> Self {
        match *self {
            Cell::On => Cell::Dying,
            Cell::Dying => Cell::Off,
            Cell::Off => if on_neighbors == 2 {
                Cell::On
            } else {
                Cell::Off
            },
        }
    }

    fn eq_cell(&self, other: &Self) -> bool {
        *self == *other
    }

    fn from_draw(draw: u64) -> Self {
        if draw % 10 < 9 {
            Cell::Off
        } else {
            Cell::On
        }
    }
}

impl Cell {
    /// Put this cell in the transient "dying" state.
    pub fn shoot(&mut self)
        ensures
            *final(self) == Cell::Dying,
    {
        *self = Cell::Dying;
    }

    /// Turn this cell off.
    pub fn kill(&mut self)
        ensures
            *final(self) == Cell::Off,
    {
        *self = Cell::Off;
    }

    /// Turn this cell on.
    pub fn resurrect(&mut self)
        ensures
            *final(self) == Cell::On,
    {
        *self = Cell::On;
    }
}

/// A row-major grid's worth of randomly seeded cells: each is off with
/// nine draws in ten, on with one, and never dying.
pub fn random_cells(dimensions: Dimensions) -> (r: Vec<Cell>)
    requires
        dimensions.wf(),
    ensures
        r@.len() == dimensions.spec_area(),
        forall|i: int| 0 <= i < r@.len() ==> r@[i] != Cell::Dying,
{
    let n = dimensions.area();
    let mut r: Vec<Cell> = Vec::new();
    let mut k: usize = 0;
    while k < n
        invariant
            k <= n,
            r@.len() == k,
            forall|i: int| 0 <= i < r@.len() ==> r@[i] != Cell::Dying,
        decreases n - k,
    {
        r.push(Cell::from_draw(random_draw()));
        k += 1;
    }
    r
}

/// The cyclic self-advance walks on -> dying -> off -> on and returns to its
/// starting state after exactly three steps, never resurrecting early.
pub proof fn lemma_brain_cycle(c: Cell)
    ensures
        Cell::On.spec_next() == Cell::Dying,
        Cell::Dying.spec_next() == Cell::Off,
        Cell::Off.spec_next() == Cell::On,
        c.spec_next() != c,
        c.spec_next().spec_next() != c,
        c.spec_next().spec_next().spec_next() == c,
{
}

} // verus!
