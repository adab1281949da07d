use vstd::prelude::*;

verus! {

/// A row-major grid of `w` columns and `h` rows, stored flat in `f`.
///
/// Cell `(x, y)` lives at `f[x + y * w]`.
pub struct TwoDArray<T> {
    pub f: Vec<T>,
    pub w: u32,
    pub h: u32,
}

/// Flat position of cell `(x, y)` in a grid `w` cells wide.
pub open spec fn flat_index(x: int, y: int, w: int) -> int {
    x + y * w
}

/// Cell `(x, y)` names a cell of a `w` by `h` grid.
pub open spec fn in_bounds(x: int, y: int, w: int, h: int) -> bool {
    0 <= x < w && 0 <= y < h
}

/// Every cell of a `w` by `h` grid has a flat position below `w * h`.
pub proof fn lemma_flat_index_bounds(x: int, y: int, w: int, h: int)
    requires
        in_bounds(x, y, w, h),
    ensures
        0 <= flat_index(x, y, w) < w * h,
{
    assert(0 <= y * w) by (nonlinear_arith)
        requires
            0 <= y,
            0 <= w,
    ;
    assert(x + y * w < w * h) by (nonlinear_arith)
        requires
            0 <= x < w,
            0 <= y < h,
    ;
}

/// Distinct cells of a grid `w` wide have distinct flat positions.
pub proof fn lemma_flat_index_injective(x1: int, y1: int, x2: int, y2: int, w: int)
    requires
        0 <= x1 < w,
        0 <= x2 < w,
        0 <= y1,
        0 <= y2,
        flat_index(x1, y1, w) == flat_index(x2, y2, w),
    ensures
        x1 == x2,
        y1 == y2,
{
    if y1 < y2 {
        assert(y1 * w + w <= y2 * w) by (nonlinear_arith)
            requires
                y1 < y2,
                0 <= w,
        ;
    } else if y2 < y1 {
        assert(y2 * w + w <= y1 * w) by (nonlinear_arith)
            requires
                y2 < y1,
                0 <= w,
        ;
    }
}

impl<T> TwoDArray<T> {
    /// The flat storage holds exactly one value per cell.
    pub open spec fn wf(&self) -> bool {
        self.f@.len() == self.w as int * self.h as int
    }

    /// The value stored for cell `(x, y)`.
    pub open spec fn cell(&self, x: int, y: int) -> T {
        self.f@[flat_index(x, y, self.w as int)]
    }

    /// Wraps `f` as a `w` by `h` grid; `None` when its length is not `w * h`.
    pub fn new(f: Vec<T>, w: u32, h: u32) -> (r: Option<Self>)
        ensures
            f@.len() == w as int * h as int <==> r.is_some(),
            r matches Some(a) ==> a.f@ == f@ && a.w == w && a.h == h && a.wf(),
    {
        assert(w as int * h as int <= u32::MAX as int * u32::MAX as int) by (nonlinear_arith)
            requires
                w <= u32::MAX,
                h <= u32::MAX,
        ;
        let n: u64 = w as u64 * h as u64;
        if f.len() as u64 == n {
            Some(TwoDArray { f, w, h })
        } else {
            None
        }
    }

    /// Flat position of cell `(x, y)`.
    pub fn index_of(&self, x: u32, y: u32) -> (r: usize)
        requires
            self.wf(),
            in_bounds(x as int, y as int, self.w as int, self.h as int),
        ensures
            r as int == flat_index(x as int, y as int, self.w as int),
            r < self.f@.len(),
    {
        proof {
            lemma_flat_index_bounds(x as int, y as int, self.w as int, self.h as int);
            assert(0 <= y as int * self.w as int) by (nonlinear_arith)
                requires
                    0 <= y,
                    0 <= self.w,
            ;
            assert(y as int * self.w as int <= flat_index(x as int, y as int, self.w as int));
        }
        let xs: usize = x as usize;
        let ys: usize = y as usize;
        let ws: usize = self.w as usize;
        // The storage length bounds the index, and is itself a `usize`.
        let len: usize = self.f.len();
        assert(flat_index(x as int, y as int, self.w as int) < len);
        xs + ys * ws
    }

    /// The value of cell `(x, y)`, or `None` outside the grid.
    pub fn at(&self, x: u32, y: u32) -> (r: Option<&T>)
        requires
            self.wf(),
        ensures
            in_bounds(x as int, y as int, self.w as int, self.h as int) <==> r.is_some(),
            r matches Some(v) ==> *v == self.cell(x as int, y as int),
    {
        if x < self.w && y < self.h {
            let i = self.index_of(x, y);
            Some(&self.f[i])
        } else {
            None
        }
    }

    /// A mutable handle on cell `(x, y)`, or `None` outside the grid.
    pub fn at_mut(&mut self, x: u32, y: u32) -> (r: Option<&mut T>)
        requires
            old(self).wf(),
        ensures
            in_bounds(x as int, y as int, old(self).w as int, old(self).h as int) <==> r.is_some(),
            r matches Some(v) ==> {
                &&& *v == old(self).cell(x as int, y as int)
                &&& final(self).f@ == old(self).f@.update(
                    flat_index(x as int, y as int, old(self).w as int),
                    *final(v),
                )
                &&& final(self).w == old(self).w
                &&& final(self).h == old(self).h
            },
            r is None ==> *final(self) == *old(self),
    {
        if x < self.w && y < self.h {
            let i = self.index_of(x, y);
            Some(&mut self.f[i])
        } else {
            None
        }
    }

    /// The value of cell `(x, y)`, which must lie inside the grid.
    pub fn at_unchecked(&self, x: u32, y: u32) -> (r: &T)
        requires
            self.wf(),
            in_bounds(x as int, y as int, self.w as int, self.h as int),
        ensures
            *r == self.cell(x as int, y as int),
    {
        let i = self.index_of(x, y);
        &self.f[i]
    }

    /// The value of cell `(x, y)`, which must lie inside the grid, read through a
    /// mutable borrow of the grid; the grid is left as it was.
    pub fn at_unchecked_mut(&mut self, x: u32, y: u32) -> (r: &T)
        requires
            old(self).wf(),
            in_bounds(x as int, y as int, old(self).w as int, old(self).h as int),
        ensures
            *r == old(self).cell(x as int, y as int),
            *final(self) == *old(self),
    {
        let i = self.index_of(x, y);
        &self.f[i]
    }
}

} // verus!
