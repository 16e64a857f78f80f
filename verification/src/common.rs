//! Grid geometry: dimensions, coordinates, and 2-D to 1-D index conversion.

use vstd::prelude::*;

verus! {

/// A 2-D grid coordinate, column (`x`) first, row (`y`) second.
pub type Index = (usize, usize);

/// The width and height of a grid, both at least one.
///
/// The grid is addressed row-major: the cell at `(x, y)` lives at linear
/// index `y * width + x`.
#[derive(Clone, Copy, Debug, PartialEq, Eq, Structural)]
pub struct Dimensions {
    pub width: usize,
    pub height: usize,
}

impl Dimensions {
    /// Both sides are positive and the cell count fits in a `usize`.
    pub open spec fn wf(self) -> bool {
        &&& self.width >= 1
        &&& self.height >= 1
        &&& self.width * self.height <= usize::MAX
    }

    /// The number of cells a grid of these dimensions holds.
    pub open spec fn spec_area(self) -> int {
        self.width * self.height
    }

    /// Whether `(x, y)` lies inside the grid.
    pub open spec fn spec_in_bounds(self, x: int, y: int) -> bool {
        0 <= x < self.width && 0 <= y < self.height
    }

    /// The linear index of the in-bounds coordinate `(x, y)`.
    pub open spec fn spec_index(self, x: int, y: int) -> int {
        y * self.width + x
    }

    pub fn new(width: usize, height: usize) -> (d: Dimensions)
        requires
            width >= 1,
            height >= 1,
            width * height <= usize::MAX,
        ensures
            d == (Dimensions { width, height }),
            d.wf(),
    {
        Dimensions { width, height }
    }

    pub fn area(&self) -> (a: usize)
        requires
            self.wf(),
        ensures
            a == self.spec_area(),
    {
        self.width * self.height
    }

    /// The linear index of `(x, y)`, or `None` when the coordinate is out of
    /// bounds; out-of-range queries never trap.
    pub fn index_of(&self, x: usize, y: usize) -> (r: Option<usize>)
        requires
            self.wf(),
        ensures
            self.spec_in_bounds(x as int, y as int) ==> r == Some(
                self.spec_index(x as int, y as int) as usize,
            ),
            !self.spec_in_bounds(x as int, y as int) ==> r is None,
    {
        if x < self.width && y < self.height {
            proof {
                lemma_linear_index_in_area(
                    self.width as int,
                    self.height as int,
                    x as int,
                    y as int,
                );
            }
            Some(y * self.width + x)
        } else {
            None
        }
    }
}

/// The linear index of an in-bounds coordinate lies inside the grid's area.
pub proof fn lemma_linear_index_in_area(w: int, h: int, x: int, y: int)
    requires
        0 <= x < w,
        0 <= y < h,
    ensures
        0 <= y * w + x < w * h,
{
    assert(0 <= y * w + x < w * h) by (nonlinear_arith)
        requires
            0 <= x < w,
            0 <= y < h,
    ;
}

/// A linear index inside the area splits into an in-bounds coordinate, and
/// the split inverts `y * w + x`.
pub proof fn lemma_linear_index_split(w: int, h: int, i: int)
    requires
        1 <= w,
        1 <= h,
        0 <= i < w * h,
    ensures
        0 <= i % w < w,
        0 <= i / w < h,
        (i / w) * w + (i % w) == i,
{
    assert((i / w) * w + (i % w) == i && 0 <= i % w < w && 0 <= i / w) by (nonlinear_arith)
        requires
            1 <= w,
            0 <= i,
    ;
    assert(i / w < h) by (nonlinear_arith)
        requires
            1 <= w,
            1 <= h,
            0 <= i < w * h,
            (i / w) * w + (i % w) == i,
            0 <= i % w < w,
            0 <= i / w,
    ;
}

/// Splitting the linear index `y * w + x` of an in-bounds coordinate
/// recovers `x` and `y`.
pub proof fn lemma_linear_index_coords(w: int, x: int, y: int)
    requires
        0 <= x < w,
        0 <= y,
    ensures
        (y * w + x) % w == x,
        (y * w + x) / w == y,
{
    vstd::arithmetic::div_mod::lemma_fundamental_div_mod_converse(y * w + x, w, y, x);
}

} // verus!
