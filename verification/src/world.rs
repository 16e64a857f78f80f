//! The world engine: owns the grid of cells, computes per-tick changes via
//! neighbor inspection, commits them, and records the last delta.

use vstd::prelude::*;

use crate::cell::BasicCell;
use crate::cell::random_draw;
use crate::common::Dimensions;
use crate::common::Index;
use crate::common::lemma_linear_index_coords;
use crate::common::lemma_linear_index_in_area;
use crate::common::lemma_linear_index_split;

verus! {

/// The number of live cells in a sequence.
pub open spec fn count_on<C: BasicCell>(s: Seq<C>) -> nat
    decreases s.len(),
{
    if s.len() == 0 {
        0
    } else {
        count_on(s.drop_last()) + (if s.last().spec_is_on() {
            1nat
        } else {
            0nat
        })
    }
}

/// Whether a cell state is one that some random draw seeds.
pub open spec fn seeded_cell<C: BasicCell>(c: C) -> bool {
    exists|d: u64| c == #[trigger] C::spec_from_draw(d)
}

/// Counting live cells distributes over concatenation.
pub proof fn lemma_count_on_concat<C: BasicCell>(s: Seq<C>, t: Seq<C>)
    ensures
        count_on(s + t) == count_on(s) + count_on(t),
    decreases t.len(),
{
    if t.len() == 0 {
        assert(s + t =~= s);
    } else {
        lemma_count_on_concat(s, t.drop_last());
        assert((s + t).drop_last() =~= s + t.drop_last());
        assert((s + t).last() == t.last());
    }
}

/// A world: one grid of cells, its dimensions, and the delta of the most
/// recently committed tick.
///
/// The grid is row-major; the cell at `(x, y)` lives at linear index
/// `y * width + x`. The delta is overwritten, never accumulated, on every
/// [`World::tick`], and is empty before the first tick completes; only
/// tick-produced changes populate it.
pub struct World<C: BasicCell> {
    cells: Vec<C>,
    dimensions: Dimensions,
    delta: Vec<(Index, C)>,
}

impl<C: BasicCell> World<C> {
    /// The grid's contents, row-major.
    pub closed spec fn spec_cells(self) -> Seq<C> {
        self.cells@
    }

    /// The grid's dimensions.
    pub closed spec fn spec_dimensions(self) -> Dimensions {
        self.dimensions
    }

    /// The change set committed by the most recent tick.
    pub closed spec fn spec_delta(self) -> Seq<(Index, C)> {
        self.delta@
    }

    /// The dimensions are well formed and the grid's element count equals
    /// their area at all times.
    pub open spec fn wf(self) -> bool {
        &&& self.spec_dimensions().wf()
        &&& self.spec_cells().len() == self.spec_dimensions().spec_area()
    }

    /// The cell at the in-bounds coordinate `(x, y)`.
    pub open spec fn spec_cell_at(self, x: int, y: int) -> C {
        self.spec_cells()[self.spec_dimensions().spec_index(x, y)]
    }

    /// The cell at `(x, y)` as a one-element sequence, or empty when the
    /// coordinate falls outside the grid.
    pub open spec fn spec_neighbor_at(self, x: int, y: int) -> Seq<C> {
        if self.spec_dimensions().spec_in_bounds(x, y) {
            seq![self.spec_cell_at(x, y)]
        } else {
            Seq::empty()
        }
    }

    /// All in-bounds cells of the 3x3 neighborhood centered at `(x, y)`,
    /// excluding the center, column-major. Coordinates outside the grid are
    /// simply omitted: the edges are closed, not wrapping.
    pub open spec fn spec_neighbors(self, x: int, y: int) -> Seq<C> {
        self.spec_neighbor_at(x - 1, y - 1) + self.spec_neighbor_at(x - 1, y)
            + self.spec_neighbor_at(x - 1, y + 1) + self.spec_neighbor_at(x, y - 1)
            + self.spec_neighbor_at(x, y + 1) + self.spec_neighbor_at(x + 1, y - 1)
            + self.spec_neighbor_at(x + 1, y) + self.spec_neighbor_at(x + 1, y + 1)
    }

    /// The state the cell at `(x, y)` takes on the upcoming tick: its rule
    /// applied to its current state and its live Moore neighbor count.
    pub open spec fn spec_next_cell(self, x: int, y: int) -> C {
        self.spec_cell_at(x, y).spec_transition(count_on(self.spec_neighbors(x, y)))
    }

    /// The whole grid advanced by one tick, row-major.
    pub open spec fn spec_step(self) -> Seq<C> {
        Seq::new(
            self.spec_cells().len(),
            |i: int|
                self.spec_next_cell(
                    i % self.spec_dimensions().width as int,
                    i / self.spec_dimensions().width as int,
                ),
        )
    }

    /// The change the upcoming tick records for the cell at linear index
    /// `i`: a one-element sequence when the cell's next state differs from
    /// its current one, and empty otherwise.
    pub open spec fn spec_change_at(self, i: int) -> Seq<(Index, C)> {
        let w = self.spec_dimensions().width as int;
        let x = i % w;
        let y = i / w;
        let c = self.spec_next_cell(x, y);
        if c != self.spec_cells()[i] {
            seq![(((x as usize, y as usize)), c)]
        } else {
            Seq::empty()
        }
    }

    /// The changes of the upcoming tick over the first `k` linear indices,
    /// in row-major order.
    pub open spec fn spec_changes_upto(self, k: int) -> Seq<(Index, C)>
        decreases k,
    {
        if k <= 0 {
            Seq::empty()
        } else {
            self.spec_changes_upto(k - 1) + self.spec_change_at(k - 1)
        }
    }

    /// The changes of the upcoming tick over the whole grid: exactly the
    /// coordinates whose next state differs from their current one, with
    /// their new values, in row-major order. Self-equal rule outputs are
    /// not recorded.
    pub open spec fn spec_changes(self) -> Seq<(Index, C)> {
        self.spec_changes_upto(self.spec_dimensions().spec_area())
    }

    /// Take ownership of a pre-built row-major grid. The cell count must
    /// match the dimensions' area: a mismatch is a caller bug.
    pub fn new(cells: Vec<C>, dimensions: Dimensions) -> (w: World<C>)
        requires
            dimensions.wf(),
            cells@.len() == dimensions.spec_area(),
        ensures
            w.wf(),
            w.spec_cells() == cells@,
            w.spec_dimensions() == dimensions,
            w.spec_delta() == Seq::<(Index, C)>::empty(),
    {
        World { cells, dimensions, delta: Vec::new() }
    }

    /// A world whose grid is filled entirely with the cell type's default
    /// state.
    pub fn blank(dimensions: Dimensions) -> (w: World<C>)
        requires
            dimensions.wf(),
        ensures
            w.wf(),
            w.spec_dimensions() == dimensions,
            w.spec_cells() == Seq::new(dimensions.spec_area() as nat, |i: int| C::spec_default()),
            w.spec_delta() == Seq::<(Index, C)>::empty(),
    {
        let n = dimensions.area();
        let mut cells: Vec<C> = Vec::new();
        let mut k: usize = 0;
        while k < n
            invariant
                k <= n,
                cells@ =~= Seq::new(k as nat, |i: int| C::spec_default()),
            decreases n - k,
        {
            cells.push(C::default_cell());
            k += 1;
        }
        World::new(cells, dimensions)
    }

    /// A world whose grid is filled by one random draw per cell, row-major:
    /// whatever the draws, every cell is some draw's seeded state.
    pub fn random(dimensions: Dimensions) -> (w: World<C>)
        requires
            dimensions.wf(),
        ensures
            w.wf(),
            w.spec_dimensions() == dimensions,
            w.spec_delta() == Seq::<(Index, C)>::empty(),
            forall|i: int|
                0 <= i < w.spec_cells().len() ==> #[trigger] seeded_cell(w.spec_cells()[i]),
    {
        let n = dimensions.area();
        let mut cells: Vec<C> = Vec::new();
        let mut k: usize = 0;
        while k < n
            invariant
                k <= n,
                cells@.len() == k,
                forall|i: int| 0 <= i < k ==> #[trigger] seeded_cell(cells@[i]),
            decreases n - k,
        {
            let draw = random_draw();
            cells.push(C::from_draw(draw));
            proof {
                assert(cells@[k as int] == C::spec_from_draw(draw));
                assert(seeded_cell(cells@[k as int]));
            }
            k += 1;
        }
        let ghost cs = cells@;
        let w = World::new(cells, dimensions);
        proof {
            assert forall|i: int| 0 <= i < w.spec_cells().len() implies #[trigger] seeded_cell(
                w.spec_cells()[i],
            ) by {
                assert(w.spec_cells()[i] == cs[i]);
                assert(seeded_cell(cs[i]));
            }
        }
        w
    }

    /// Refill the whole grid with fresh random cells; the delta is left as
    /// the last tick wrote it.
    pub fn refresh_random(&mut self)
        requires
            old(self).wf(),
        ensures
            final(self).wf(),
            final(self).spec_dimensions() == old(self).spec_dimensions(),
            final(self).spec_delta() == old(self).spec_delta(),
            forall|i: int|
                0 <= i < final(self).spec_cells().len() ==> #[trigger] seeded_cell(
                    final(self).spec_cells()[i],
                ),
    {
        let n = self.dimensions.area();
        let mut cells: Vec<C> = Vec::new();
        let mut k: usize = 0;
        while k < n
            invariant
                k <= n,
                cells@.len() == k,
                forall|i: int| 0 <= i < k ==> #[trigger] seeded_cell(cells@[i]),
            decreases n - k,
        {
            let draw = random_draw();
            cells.push(C::from_draw(draw));
            proof {
                assert(cells@[k as int] == C::spec_from_draw(draw));
                assert(seeded_cell(cells@[k as int]));
            }
            k += 1;
        }
        let ghost cs = cells@;
        self.cells = cells;
        proof {
            assert forall|i: int| 0 <= i < self.spec_cells().len() implies #[trigger] seeded_cell(
                self.spec_cells()[i],
            ) by {
                assert(self.spec_cells()[i] == cs[i]);
                assert(seeded_cell(cs[i]));
            }
        }
    }

    /// Shared access to the owned grid, row-major.
    pub fn cells(&self) -> (r: &Vec<C>)
        ensures
            r@ == self.spec_cells(),
    {
        &self.cells
    }

    /// The world's dimensions.
    pub fn dimensions(&self) -> (d: Dimensions)
        ensures
            d == self.spec_dimensions(),
    {
        self.dimensions
    }

    /// The change set the most recent tick committed, for incremental
    /// redraws.
    pub fn delta(&self) -> (r: &Vec<(Index, C)>)
        ensures
            r@ == self.spec_delta(),
    {
        &self.delta
    }

    /// The cell at `(x, y)`, or `None` when the coordinate is out of
    /// bounds; out-of-range queries never trap.
    pub fn get_cell(&self, x: usize, y: usize) -> (r: Option<C>)
        requires
            self.wf(),
        ensures
            self.spec_dimensions().spec_in_bounds(x as int, y as int) ==> r == Some(
                self.spec_cell_at(x as int, y as int),
            ),
            !self.spec_dimensions().spec_in_bounds(x as int, y as int) ==> r is None,
    {
        match self.dimensions.index_of(x, y) {
            Some(i) => {
                proof {
                    lemma_linear_index_in_area(
                        self.dimensions.width as int,
                        self.dimensions.height as int,
                        x as int,
                        y as int,
                    );
                }
                Some(self.cells[i])
            },
            None => None,
        }
    }

    /// Overwrite the cell at `(x, y)` for external seeding; reports whether
    /// the coordinate was in bounds, and leaves the world unchanged when it
    /// was not. Changes made here do not populate the delta.
    pub fn set_cell(&mut self, x: usize, y: usize, cell: C) -> (ok: bool)
        requires
            old(self).wf(),
        ensures
            final(self).wf(),
            final(self).spec_dimensions() == old(self).spec_dimensions(),
            final(self).spec_delta() == old(self).spec_delta(),
            ok == old(self).spec_dimensions().spec_in_bounds(x as int, y as int),
            ok ==> final(self).spec_cells() == old(self).spec_cells().update(
                old(self).spec_dimensions().spec_index(x as int, y as int),
                cell,
            ),
            !ok ==> final(self).spec_cells() == old(self).spec_cells(),
    {
        match self.dimensions.index_of(x, y) {
            Some(i) => {
                proof {
                    lemma_linear_index_in_area(
                        self.dimensions.width as int,
                        self.dimensions.height as int,
                        x as int,
                        y as int,
                    );
                }
                self.cells[i] = cell;
                true
            },
            None => false,
        }
    }

    /// The cell at the in-bounds coordinate `(x, y)`.
    fn cell_at(&self, x: usize, y: usize) -> (c: C)
        requires
            self.wf(),
            self.spec_dimensions().spec_in_bounds(x as int, y as int),
        ensures
            c == self.spec_cell_at(x as int, y as int),
    {
        proof {
            lemma_linear_index_in_area(
                self.dimensions.width as int,
                self.dimensions.height as int,
                x as int,
                y as int,
            );
        }
        self.cells[y * self.dimensions.width + x]
    }

    /// All in-bounds cells of the 3x3 neighborhood centered at the
    /// in-bounds coordinate `(x, y)`, excluding the center itself.
    /// Corner cells get three neighbors, other edge cells five, interior
    /// cells eight: the grid's edges are closed, not wrapping.
    pub fn moore_neighbors(&self, x: usize, y: usize) -> (r: Vec<C>)
        requires
            self.wf(),
            self.spec_dimensions().spec_in_bounds(x as int, y as int),
        ensures
            r@ == self.spec_neighbors(x as int, y as int),
    {
        let ghost xi = x as int;
        let ghost yi = y as int;
        let w = self.dimensions.width;
        let h = self.dimensions.height;
        let mut r: Vec<C> = Vec::new();
        if x > 0 && y > 0 {
            r.push(self.cell_at(x - 1, y - 1));
        }
        assert(r@ =~= self.spec_neighbor_at(xi - 1, yi - 1));
        if x > 0 {
            r.push(self.cell_at(x - 1, y));
        }
        assert(r@ =~= self.spec_neighbor_at(xi - 1, yi - 1) + self.spec_neighbor_at(xi - 1, yi));
        if x > 0 && y + 1 < h {
            r.push(self.cell_at(x - 1, y + 1));
        }
        assert(r@ =~= self.spec_neighbor_at(xi - 1, yi - 1) + self.spec_neighbor_at(xi - 1, yi)
            + self.spec_neighbor_at(xi - 1, yi + 1));
        if y > 0 {
            r.push(self.cell_at(x, y - 1));
        }
        assert(r@ =~= self.spec_neighbor_at(xi - 1, yi - 1) + self.spec_neighbor_at(xi - 1, yi)
            + self.spec_neighbor_at(xi - 1, yi + 1) + self.spec_neighbor_at(xi, yi - 1));
        if y + 1 < h {
            r.push(self.cell_at(x, y + 1));
        }
        assert(r@ =~= self.spec_neighbor_at(xi - 1, yi - 1) + self.spec_neighbor_at(xi - 1, yi)
            + self.spec_neighbor_at(xi - 1, yi + 1) + self.spec_neighbor_at(xi, yi - 1)
            + self.spec_neighbor_at(xi, yi + 1));
        if x + 1 < w && y > 0 {
            r.push(self.cell_at(x + 1, y - 1));
        }
        assert(r@ =~= self.spec_neighbor_at(xi - 1, yi - 1) + self.spec_neighbor_at(xi - 1, yi)
            + self.spec_neighbor_at(xi - 1, yi + 1) + self.spec_neighbor_at(xi, yi - 1)
            + self.spec_neighbor_at(xi, yi + 1) + self.spec_neighbor_at(xi + 1, yi - 1));
        if x + 1 < w {
            r.push(self.cell_at(x + 1, y));
        }
        assert(r@ =~= self.spec_neighbor_at(xi - 1, yi - 1) + self.spec_neighbor_at(xi - 1, yi)
            + self.spec_neighbor_at(xi - 1, yi + 1) + self.spec_neighbor_at(xi, yi - 1)
            + self.spec_neighbor_at(xi, yi + 1) + self.spec_neighbor_at(xi + 1, yi - 1)
            + self.spec_neighbor_at(xi + 1, yi));
        if x + 1 < w && y + 1 < h {
            r.push(self.cell_at(x + 1, y + 1));
        }
        assert(r@ =~= self.spec_neighbors(xi, yi));
        r
    }
}

impl<C: BasicCell> World<C> {
    /// What every entry of the upcoming change set satisfies: an in-bounds
    /// coordinate whose next state is the recorded value and differs from
    /// its current state.
    pub open spec fn spec_change_entry_ok(self, e: (Index, C)) -> bool {
        let x = e.0.0 as int;
        let y = e.0.1 as int;
        &&& self.spec_dimensions().spec_in_bounds(x, y)
        &&& e.1 == self.spec_next_cell(x, y)
        &&& e.1 != self.spec_cell_at(x, y)
    }

    /// Every entry of the change set over the first `k` indices is a sound
    /// change below `k`, and every cell below `k` whose state changes is
    /// recorded.
    pub proof fn lemma_changes_upto_props(self, k: int)
        requires
            self.wf(),
            0 <= k <= self.spec_dimensions().spec_area(),
        ensures
            forall|j: int|
                0 <= j < self.spec_changes_upto(k).len() ==> {
                    let e = #[trigger] self.spec_changes_upto(k)[j];
                    self.spec_change_entry_ok(e) && self.spec_dimensions().spec_index(
                        e.0.0 as int,
                        e.0.1 as int,
                    ) < k
                },
            forall|i: int|
                #![trigger self.spec_change_at(i)]
                0 <= i < k ==> {
                    let w = self.spec_dimensions().width as int;
                    self.spec_next_cell(i % w, i / w) != self.spec_cells()[i]
                        ==> self.spec_changes_upto(k).contains(
                        (((i % w) as usize, (i / w) as usize), self.spec_next_cell(i % w, i / w)),
                    )
                },
        decreases k,
    {
        let w = self.spec_dimensions().width as int;
        let h = self.spec_dimensions().height as int;
        if k > 0 {
            self.lemma_changes_upto_props(k - 1);
            lemma_linear_index_split(w, h, k - 1);
            let prev = self.spec_changes_upto(k - 1);
            let cur = self.spec_changes_upto(k);
            let x = (k - 1) % w;
            let y = (k - 1) / w;
            assert(y * w + x == k - 1);
            assert(cur == prev + self.spec_change_at(k - 1));
            assert forall|j: int| 0 <= j < cur.len() implies {
                let e = #[trigger] cur[j];
                self.spec_change_entry_ok(e) && self.spec_dimensions().spec_index(
                    e.0.0 as int,
                    e.0.1 as int,
                ) < k
            } by {
                if j < prev.len() {
                    assert(cur[j] == prev[j]);
                } else {
                    assert(self.spec_change_at(k - 1).len() > 0);
                    assert(cur[j] == self.spec_change_at(k - 1)[j - prev.len()]);
                    assert(cur[j] == (((x as usize, y as usize)), self.spec_next_cell(x, y)));
                }
            }
            assert forall|i: int|
                0 <= i < k && self.spec_next_cell(i % w, i / w) != self.spec_cells()[i] implies self.spec_changes_upto(
                k,
            ).contains(
                (((i % w) as usize, (i / w) as usize), self.spec_next_cell(i % w, i / w)),
            ) by {
                let e = (((i % w) as usize, (i / w) as usize), self.spec_next_cell(i % w, i / w));
                if i < k - 1 {
                    assert(self.spec_change_at(i).len() <= 1);
                    assert(prev.contains(e));
                    let j = choose|j: int| 0 <= j < prev.len() && prev[j] == e;
                    assert(cur[j] == e);
                } else {
                    assert(i == k - 1);
                    assert(self.spec_change_at(k - 1) == seq![e]);
                    assert(cur[prev.len() as int] == e);
                }
            }
        }
    }

    /// The grid left behind by applying a change list, last entry applied
    /// last; entries name linear indices through their coordinates.
    pub open spec fn spec_apply_changes(cells: Seq<C>, d: Dimensions, ch: Seq<(Index, C)>) -> Seq<
        C,
    >
        decreases ch.len(),
    {
        if ch.len() == 0 {
            cells
        } else {
            let e = ch.last();
            Self::spec_apply_changes(cells, d, ch.drop_last()).update(
                d.spec_index(e.0.0 as int, e.0.1 as int),
                e.1,
            )
        }
    }

    /// Applying a list of sound change entries rewrites exactly the listed
    /// cells to their next states and touches nothing else. Since every
    /// entry for a given coordinate carries the same value, the order of
    /// application does not matter.
    pub proof fn lemma_apply_changes_props(self, ch: Seq<(Index, C)>)
        requires
            self.wf(),
            forall|j: int| 0 <= j < ch.len() ==> self.spec_change_entry_ok(#[trigger] ch[j]),
        ensures
            Self::spec_apply_changes(self.spec_cells(), self.spec_dimensions(), ch).len()
                == self.spec_cells().len(),
            forall|i: int|
                0 <= i < self.spec_cells().len() ==> {
                    let w = self.spec_dimensions().width as int;
                    #[trigger] Self::spec_apply_changes(
                        self.spec_cells(),
                        self.spec_dimensions(),
                        ch,
                    )[i] == if (exists|j: int|
                        0 <= j < ch.len() && self.spec_dimensions().spec_index(
                            (#[trigger] ch[j]).0.0 as int,
                            ch[j].0.1 as int,
                        ) == i) {
                        self.spec_next_cell(i % w, i / w)
                    } else {
                        self.spec_cells()[i]
                    }
                },
        decreases ch.len(),
    {
        let d = self.spec_dimensions();
        let w = d.width as int;
        let h = d.height as int;
        if ch.len() > 0 {
            self.lemma_apply_changes_props(ch.drop_last());
            let e = ch.last();
            let ex = e.0.0 as int;
            let ey = e.0.1 as int;
            let el = d.spec_index(ex, ey);
            lemma_linear_index_in_area(w, h, ex, ey);
            lemma_linear_index_coords(w, ex, ey);
            let pre = Self::spec_apply_changes(self.spec_cells(), d, ch.drop_last());
            let post = Self::spec_apply_changes(self.spec_cells(), d, ch);
            assert(post == pre.update(el, e.1));
            assert forall|i: int| 0 <= i < self.spec_cells().len() implies post[i] == if (exists|
                j: int,
            |
                0 <= j < ch.len() && d.spec_index(
                    (#[trigger] ch[j]).0.0 as int,
                    ch[j].0.1 as int,
                ) == i) {
                self.spec_next_cell(i % w, i / w)
            } else {
                self.spec_cells()[i]
            } by {
                if i == el {
                    assert(post[i] == e.1);
                    assert(ch[ch.len() - 1] == e);
                    assert(e.1 == self.spec_next_cell(i % w, i / w));
                } else {
                    assert(post[i] == pre[i]);
                    if exists|j: int|
                        0 <= j < ch.len() && d.spec_index(
                            (#[trigger] ch[j]).0.0 as int,
                            ch[j].0.1 as int,
                        ) == i {
                        let j = choose|j: int|
                            0 <= j < ch.len() && d.spec_index(
                                (#[trigger] ch[j]).0.0 as int,
                                ch[j].0.1 as int,
                            ) == i;
                        assert(j < ch.len() - 1);
                        assert(ch.drop_last()[j] == ch[j]);
                    }
                }
            }
        }
    }

    /// The change set of the upcoming tick: for every coordinate, the
    /// automaton's rule is evaluated against the current grid, and exactly
    /// the coordinates whose next state differs from their current one are
    /// returned, row-major, with their new values. Pure: the world is not
    /// touched, and two calls return the same set.
    pub fn changes(&self) -> (r: Vec<(Index, C)>)
        requires
            self.wf(),
        ensures
            r@ == self.spec_changes(),
    {
        let w = self.dimensions.width;
        let h = self.dimensions.height;
        let mut r: Vec<(Index, C)> = Vec::new();
        let mut y: usize = 0;
        while y < h
            invariant
                self.wf(),
                w == self.spec_dimensions().width,
                h == self.spec_dimensions().height,
                y <= h,
                r@ == self.spec_changes_upto((y * w) as int),
            decreases h - y,
        {
            let mut x: usize = 0;
            proof {
                lemma_linear_index_in_area(w as int, h as int, 0, y as int);
            }
            while x < w
                invariant
                    self.wf(),
                    w == self.spec_dimensions().width,
                    h == self.spec_dimensions().height,
                    y < h,
                    x <= w,
                    y * w + x <= self.spec_dimensions().spec_area(),
                    r@ == self.spec_changes_upto((y * w + x) as int),
                decreases w - x,
            {
                proof {
                    lemma_linear_index_in_area(w as int, h as int, x as int, y as int);
                    lemma_linear_index_coords(w as int, x as int, y as int);
                }
                let nbrs = self.moore_neighbors(x, y);
                let on = count_on_cells(&nbrs);
                let idx = y * w + x;
                let cur = self.cells[idx];
                let next = cur.transition(on);
                proof {
                    let k = idx as int;
                    assert(self.spec_changes_upto(k + 1) == self.spec_changes_upto(k)
                        + self.spec_change_at(k));
                    assert(cur == self.spec_cell_at(x as int, y as int));
                    assert(next == self.spec_next_cell(x as int, y as int));
                }
                if !next.eq_cell(&cur) {
                    r.push(((x, y), next));
                    proof {
                        assert(r@ =~= self.spec_changes_upto(idx as int) + self.spec_change_at(
                            idx as int,
                        ));
                    }
                } else {
                    proof {
                        assert(self.spec_change_at(idx as int) == Seq::<(Index, C)>::empty());
                        assert(r@ =~= self.spec_changes_upto(idx as int) + self.spec_change_at(
                            idx as int,
                        ));
                    }
                }
                x += 1;
            }
            proof {
                assert(y * w + w == (y + 1) * w) by (nonlinear_arith);
            }
            y += 1;
        }
        proof {
            assert(h * w == self.spec_dimensions().spec_area()) by (nonlinear_arith)
                requires
                    w == self.spec_dimensions().width,
                    h == self.spec_dimensions().height,
                    self.spec_dimensions().spec_area() == self.spec_dimensions().width
                        * self.spec_dimensions().height,
            ;
        }
        r
    }

    /// The whole grid advanced by one tick, row-major, leaving the world
    /// untouched.
    pub fn next(&self) -> (r: Vec<C>)
        requires
            self.wf(),
        ensures
            r@ == self.spec_step(),
    {
        let w = self.dimensions.width;
        let h = self.dimensions.height;
        let mut r: Vec<C> = Vec::new();
        let mut y: usize = 0;
        while y < h
            invariant
                self.wf(),
                w == self.spec_dimensions().width,
                h == self.spec_dimensions().height,
                y <= h,
                r@.len() == y * w,
                r@ =~= self.spec_step().take((y * w) as int),
            decreases h - y,
        {
            let mut x: usize = 0;
            proof {
                lemma_linear_index_in_area(w as int, h as int, 0, y as int);
            }
            while x < w
                invariant
                    self.wf(),
                    w == self.spec_dimensions().width,
                    h == self.spec_dimensions().height,
                    y < h,
                    x <= w,
                    y * w + x <= self.spec_dimensions().spec_area(),
                    r@.len() == y * w + x,
                    r@ =~= self.spec_step().take((y * w + x) as int),
                decreases w - x,
            {
                proof {
                    lemma_linear_index_in_area(w as int, h as int, x as int, y as int);
                    lemma_linear_index_coords(w as int, x as int, y as int);
                }
                let nbrs = self.moore_neighbors(x, y);
                let on = count_on_cells(&nbrs);
                let idx = y * w + x;
                let cur = self.cells[idx];
                r.push(cur.transition(on));
                proof {
                    assert(r@ =~= self.spec_step().take(idx + 1));
                }
                x += 1;
            }
            proof {
                assert(y * w + w == (y + 1) * w) by (nonlinear_arith);
            }
            y += 1;
        }
        proof {
            assert(h * w == self.spec_dimensions().spec_area()) by (nonlinear_arith)
                requires
                    w == self.spec_dimensions().width,
                    h == self.spec_dimensions().height,
                    self.spec_dimensions().spec_area() == self.spec_dimensions().width
                        * self.spec_dimensions().height,
            ;
            assert(self.spec_step().take(self.spec_step().len() as int) =~= self.spec_step());
        }
        r
    }

    /// Commit the upcoming change set: every recorded cell takes its new
    /// value, so the grid advances by exactly one synchronous step, and the
    /// stored delta is overwritten with exactly the applied set. All reads
    /// are against the pre-tick grid, so order does not matter.
    pub fn tick(&mut self)
        requires
            old(self).wf(),
        ensures
            final(self).wf(),
            final(self).spec_dimensions() == old(self).spec_dimensions(),
            final(self).spec_delta() == old(self).spec_changes(),
            final(self).spec_cells() == old(self).spec_step(),
    {
        let ghost w0 = *self;
        let changes = self.changes();
        proof {
            w0.lemma_changes_upto_props(w0.spec_dimensions().spec_area());
        }
        let w = self.dimensions.width;
        let mut j: usize = 0;
        while j < changes.len()
            invariant
                w0.wf(),
                changes@ == w0.spec_changes(),
                forall|jj: int|
                    0 <= jj < changes@.len() ==> w0.spec_change_entry_ok(#[trigger] changes@[jj]),
                w == w0.spec_dimensions().width,
                j <= changes@.len(),
                self.dimensions == w0.spec_dimensions(),
                self.spec_delta() == w0.spec_delta(),
                self.spec_cells().len() == w0.spec_cells().len(),
                self.spec_cells() == World::spec_apply_changes(
                    w0.spec_cells(),
                    w0.spec_dimensions(),
                    changes@.take(j as int),
                ),
            decreases changes@.len() - j,
        {
            let e = changes[j];
            let x = e.0.0;
            let y = e.0.1;
            proof {
                lemma_linear_index_in_area(
                    w0.spec_dimensions().width as int,
                    w0.spec_dimensions().height as int,
                    x as int,
                    y as int,
                );
            }
            let idx = y * w + x;
            self.cells[idx] = e.1;
            proof {
                let t1 = changes@.take(j + 1);
                assert(t1.drop_last() =~= changes@.take(j as int));
                assert(t1.last() == changes@[j as int]);
                assert(World::spec_apply_changes(w0.spec_cells(), w0.spec_dimensions(), t1)
                    == World::spec_apply_changes(
                    w0.spec_cells(),
                    w0.spec_dimensions(),
                    t1.drop_last(),
                ).update(w0.spec_dimensions().spec_index(x as int, y as int), e.1));
            }
            j += 1;
        }
        proof {
            assert(changes@.take(changes@.len() as int) =~= changes@);
            w0.lemma_apply_changes_props(changes@);
            let d = w0.spec_dimensions();
            let wi = d.width as int;
            let hi = d.height as int;
            assert forall|i: int| 0 <= i < w0.spec_cells().len() implies self.spec_cells()[i]
                == w0.spec_step()[i] by {
                lemma_linear_index_split(wi, hi, i);
                let x = i % wi;
                let y = i / wi;
                let nc = w0.spec_next_cell(x, y);
                if nc != w0.spec_cells()[i] {
                    let e = (((x as usize, y as usize)), nc);
                    assert(w0.spec_change_at(i).len() <= 1);
                    assert(changes@.contains(e));
                    let jj = choose|jj: int|
                        0 <= jj < changes@.len() && changes@[jj] == e;
                    assert(d.spec_index(changes@[jj].0.0 as int, changes@[jj].0.1 as int) == i);
                } else {
                    if exists|jj: int|
                        0 <= jj < changes@.len() && d.spec_index(
                            (#[trigger] changes@[jj]).0.0 as int,
                            changes@[jj].0.1 as int,
                        ) == i {
                        let jj = choose|jj: int|
                            0 <= jj < changes@.len() && d.spec_index(
                                (#[trigger] changes@[jj]).0.0 as int,
                                changes@[jj].0.1 as int,
                            ) == i;
                        let ex = changes@[jj].0.0 as int;
                        let ey = changes@[jj].0.1 as int;
                        lemma_linear_index_coords(wi, ex, ey);
                        assert(ex == x && ey == y);
                        assert(changes@[jj].1 != w0.spec_cell_at(x, y));
                        assert(changes@[jj].1 == nc);
                        assert(false);
                    }
                }
            }
            assert(self.spec_cells() =~= w0.spec_step());
        }
        self.delta = changes;
    }

    /// The number of in-bounds Moore neighbors depends only on where the
    /// cell sits: three in a corner, five on a non-corner edge, eight in
    /// the interior (for grids at least two cells wide and high).
    pub proof fn lemma_moore_neighbor_count(self, x: int, y: int)
        requires
            self.wf(),
            self.spec_dimensions().width >= 2,
            self.spec_dimensions().height >= 2,
            self.spec_dimensions().spec_in_bounds(x, y),
        ensures
            ({
                let w = self.spec_dimensions().width as int;
                let h = self.spec_dimensions().height as int;
                let corner = (x == 0 || x == w - 1) && (y == 0 || y == h - 1);
                let edge = x == 0 || x == w - 1 || y == 0 || y == h - 1;
                self.spec_neighbors(x, y).len() == if corner {
                    3int
                } else if edge {
                    5int
                } else {
                    8int
                }
            }),
    {
        let d = self.spec_dimensions();
        assert(self.spec_neighbor_at(x - 1, y - 1).len() == if d.spec_in_bounds(x - 1, y - 1) {
            1int
        } else {
            0int
        });
        assert(self.spec_neighbor_at(x - 1, y).len() == if d.spec_in_bounds(x - 1, y) {
            1int
        } else {
            0int
        });
        assert(self.spec_neighbor_at(x - 1, y + 1).len() == if d.spec_in_bounds(x - 1, y + 1) {
            1int
        } else {
            0int
        });
        assert(self.spec_neighbor_at(x, y - 1).len() == if d.spec_in_bounds(x, y - 1) {
            1int
        } else {
            0int
        });
        assert(self.spec_neighbor_at(x, y + 1).len() == if d.spec_in_bounds(x, y + 1) {
            1int
        } else {
            0int
        });
        assert(self.spec_neighbor_at(x + 1, y - 1).len() == if d.spec_in_bounds(x + 1, y - 1) {
            1int
        } else {
            0int
        });
        assert(self.spec_neighbor_at(x + 1, y).len() == if d.spec_in_bounds(x + 1, y) {
            1int
        } else {
            0int
        });
        assert(self.spec_neighbor_at(x + 1, y + 1).len() == if d.spec_in_bounds(x + 1, y + 1) {
            1int
        } else {
            0int
        });
    }
}

/// `changes` is pure: two computations of the upcoming change set from the
/// same world, with no intervening tick, yield identical results.
pub proof fn lemma_changes_pure<C: BasicCell>(
    w: World<C>,
    first: Seq<(Index, C)>,
    second: Seq<(Index, C)>,
)
    requires
        first == w.spec_changes(),
        second == w.spec_changes(),
    ensures
        first == second,
{
}

/// The number of live cells in a grid row or neighbor list.
pub fn count_on_cells<C: BasicCell>(v: &Vec<C>) -> (n: usize)
    ensures
        n == count_on(v@),
{
    let mut n: usize = 0;
    let mut i: usize = 0;
    while i < v.len()
        invariant
            i <= v@.len(),
            n <= i,
            n == count_on(v@.take(i as int)),
        decreases v@.len() - i,
    {
        proof {
            assert(v@.take(i + 1).drop_last() =~= v@.take(i as int));
            assert(v@.take(i + 1).last() == v@[i as int]);
        }
        if v[i].is_on() {
            n += 1;
        }
        i += 1;
    }
    proof {
        assert(v@.take(v@.len() as int) =~= v@);
    }
    n
}

} // verus!
