//! The binary on/off automaton: a dead cell with exactly two live Moore
//! neighbors is resurrected; every other cell keeps its state.

use vstd::prelude::*;

use crate::cell::BasicCell;
use crate::common::Index;
use crate::common::lemma_linear_index_in_area;
use crate::common::lemma_linear_index_split;
use crate::world::World;
use crate::world::count_on;
use crate::world::lemma_count_on_concat;

verus! {

/// One cell of the binary automaton: alive or dead.
#[derive(Clone, Copy, Debug, PartialEq, Eq, Structural)]
pub enum Cell {
    Alive,
    Dead,
}

impl BasicCell for Cell {
    open spec fn spec_default() -> Self {
        Cell::Dead
    }

    open spec fn spec_next(self) -> Self {
        match self {
            Cell::Alive => Cell::Dead,
            Cell::Dead => Cell::Alive,
        }
    }

    open spec fn spec_is_on(self) -> bool {
        self is Alive
    }

    open spec fn spec_transition(self, on_neighbors: nat) -> Self {
        match self {
            Cell::Dead => if on_neighbors == 2 {
                Cell::Alive
            } else {
                Cell::Dead
            },
            Cell::Alive => Cell::Alive,
        }
    }

    open spec fn spec_from_draw(draw: u64) -> Self {
        if draw % 10 < 9 {
            Cell::Dead
        } else {
            Cell::Alive
        }
    }

    fn default_cell() -> Self {
        Cell::Dead
    }

    fn next(&mut self) {
        *self = match *self {
            Cell::Alive => Cell::Dead,
            Cell::Dead => Cell::Alive,
        };
    }

    fn is_on(&self) -> bool {
        matches!(*self, Cell::Alive)
    }

    fn transition(&self, on_neighbors: usize) -> Self {
        match *self {
            Cell::Dead => if on_neighbors == 2 {
                Cell::Alive
            } else {
                Cell::Dead
            },
            Cell::Alive => Cell::Alive,
        }
    }

    fn eq_cell(&self, other: &Self) -> bool {
        *self == *other
    }

    fn from_draw(draw: u64) -> Self {
        if draw % 10 < 9 {
            Cell::Dead
        } else {
            Cell::Alive
        }
    }
}

/// Whether every cell of the world is dead, as a blank world's grid is.
pub open spec fn all_dead(w: World<Cell>) -> bool {
    forall|i: int| 0 <= i < w.spec_cells().len() ==> w.spec_cells()[i] == Cell::Dead
}

/// One neighbor slot of an all-dead world holds no live cell.
proof fn lemma_dead_neighbor_slot(w: World<Cell>, x: int, y: int)
    requires
        w.wf(),
        all_dead(w),
    ensures
        count_on(w.spec_neighbor_at(x, y)) == 0,
{
    let p = w.spec_neighbor_at(x, y);
    if w.spec_dimensions().spec_in_bounds(x, y) {
        lemma_linear_index_in_area(
            w.spec_dimensions().width as int,
            w.spec_dimensions().height as int,
            x,
            y,
        );
        assert(w.spec_cell_at(x, y) == Cell::Dead);
        assert(p.len() == 1 && p.last() == Cell::Dead);
        assert(p.drop_last() =~= Seq::<Cell>::empty());
        assert(count_on(Seq::<Cell>::empty()) == 0);
        assert(count_on(p) == 0);
    } else {
        assert(p =~= Seq::<Cell>::empty());
    }
}

/// No cell of an all-dead world has a live Moore neighbor.
proof fn lemma_dead_neighbor_count(w: World<Cell>, x: int, y: int)
    requires
        w.wf(),
        all_dead(w),
    ensures
        count_on(w.spec_neighbors(x, y)) == 0,
{
    let p1 = w.spec_neighbor_at(x - 1, y - 1);
    let p2 = w.spec_neighbor_at(x - 1, y);
    let p3 = w.spec_neighbor_at(x - 1, y + 1);
    let p4 = w.spec_neighbor_at(x, y - 1);
    let p5 = w.spec_neighbor_at(x, y + 1);
    let p6 = w.spec_neighbor_at(x + 1, y - 1);
    let p7 = w.spec_neighbor_at(x + 1, y);
    let p8 = w.spec_neighbor_at(x + 1, y + 1);
    lemma_dead_neighbor_slot(w, x - 1, y - 1);
    lemma_dead_neighbor_slot(w, x - 1, y);
    lemma_dead_neighbor_slot(w, x - 1, y + 1);
    lemma_dead_neighbor_slot(w, x, y - 1);
    lemma_dead_neighbor_slot(w, x, y + 1);
    lemma_dead_neighbor_slot(w, x + 1, y - 1);
    lemma_dead_neighbor_slot(w, x + 1, y);
    lemma_dead_neighbor_slot(w, x + 1, y + 1);
    lemma_count_on_concat(p1, p2);
    lemma_count_on_concat(p1 + p2, p3);
    lemma_count_on_concat(p1 + p2 + p3, p4);
    lemma_count_on_concat(p1 + p2 + p3 + p4, p5);
    lemma_count_on_concat(p1 + p2 + p3 + p4 + p5, p6);
    lemma_count_on_concat(p1 + p2 + p3 + p4 + p5 + p6, p7);
    lemma_count_on_concat(p1 + p2 + p3 + p4 + p5 + p6 + p7, p8);
}

/// The change set of an all-dead world over its first `k` cells is empty.
proof fn lemma_dead_changes_upto_empty(w: World<Cell>, k: int)
    requires
        w.wf(),
        all_dead(w),
        0 <= k <= w.spec_dimensions().spec_area(),
    ensures
        w.spec_changes_upto(k) == Seq::<(Index, Cell)>::empty(),
    decreases k,
{
    if k > 0 {
        lemma_dead_changes_upto_empty(w, k - 1);
        let wi = w.spec_dimensions().width as int;
        let hi = w.spec_dimensions().height as int;
        lemma_linear_index_split(wi, hi, k - 1);
        let x = (k - 1) % wi;
        let y = (k - 1) / wi;
        lemma_dead_neighbor_count(w, x, y);
        assert(w.spec_cell_at(x, y) == Cell::Dead);
        assert(w.spec_next_cell(x, y) == Cell::Dead);
        assert(w.spec_change_at(k - 1) =~= Seq::<(Index, Cell)>::empty());
        assert(w.spec_changes_upto(k) =~= Seq::<(Index, Cell)>::empty());
    }
}

/// A blank world records no change: no coordinate of an all-dead grid has
/// exactly two live neighbors, so the upcoming change set is empty.
pub proof fn lemma_blank_changes_empty(w: World<Cell>)
    requires
        w.wf(),
        all_dead(w),
    ensures
        w.spec_changes() == Seq::<(Index, Cell)>::empty(),
{
    lemma_dead_changes_upto_empty(w, w.spec_dimensions().spec_area());
}

} // verus!
