//! The capability set every automaton's cell-state type must provide.

use vstd::prelude::*;

verus! {

/// Relies on rand::random: draws a fresh value from the thread-local
/// generator. Nothing is promised of the draw; callers state what holds of
/// every outcome.
#[verifier::external_body]
pub(crate) fn random_draw() -> u64 {
    rand::random()
}

/// A small, value-copyable finite-state cell.
///
/// Each automaton supplies: a canonical empty/off state used to fill blank
/// worlds, a state seeded from one random draw, a self-contained cyclic
/// advance for automata whose rule needs no neighbor context, and the
/// neighbor-counting transition rule `(current state, live neighbor count)
/// -> next state` that the world engine evaluates on every tick.
pub trait BasicCell: Sized + Copy {
    /// The canonical empty/off value.
    spec fn spec_default() -> Self;

    /// The successor under the self-contained cyclic advance.
    spec fn spec_next(self) -> Self;

    /// Whether this state counts as live ("on") when neighbors are counted.
    spec fn spec_is_on(self) -> bool;

    /// The automaton's rule: the next state of a cell in this state whose
    /// Moore neighborhood holds `on_neighbors` live cells.
    spec fn spec_transition(self, on_neighbors: nat) -> Self;

    /// The state seeded from one random draw.
    spec fn spec_from_draw(draw: u64) -> Self;

    /// The canonical empty/off value, used to fill blank worlds.
    fn default_cell() -> (c: Self)
        ensures
            c == Self::spec_default(),
    ;

    /// Advance this cell in place to its cyclic successor; for automata
    /// whose rule needs no neighbor context.
    fn next(&mut self)
        ensures
            *final(self) == old(self).spec_next(),
    ;

    /// Whether this cell is currently live.
    fn is_on(&self) -> (r: bool)
        ensures
            r == self.spec_is_on(),
    ;

    /// The next state of this cell given its number of live Moore neighbors.
    fn transition(&self, on_neighbors: usize) -> (c: Self)
        ensures
            c == self.spec_transition(on_neighbors as nat),
    ;

    /// State equality, decided by pattern-matching the finite variant set.
    fn eq_cell(&self, other: &Self) -> (r: bool)
        ensures
            r == (*self == *other),
    ;

    /// The state a fresh cell takes when seeded from the random draw `draw`;
    /// the distribution is automaton-specific.
    fn from_draw(draw: u64) -> (c: Self)
        ensures
            c == Self::spec_from_draw(draw),
    ;
}

} // verus!
