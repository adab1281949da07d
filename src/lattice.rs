use vstd::prelude::*;

use crate::array::{flat_index, in_bounds, lemma_flat_index_bounds, lemma_flat_index_injective, TwoDArray};

verus! {

/// Why a lattice or a field could not be set up.
#[derive(Clone, Copy, Debug, PartialEq, Eq, Structural)]
pub enum ConfigError {
    /// A lattice needs at least one cell per axis.
    ZeroGridSize,
    /// A field needs at least one pixel.
    EmptyField,
    /// The requested sizes do not fit in memory indices.
    TooLarge,
    /// The supplied vertex data does not hold one value per vertex.
    SizeMismatch,
}

/// On a periodic axis of `g` cells, vertex `g` is the same point as vertex `0`.
pub open spec fn fold_edge(k: int, g: int) -> int {
    if k == g {
        0
    } else {
        k
    }
}

/// Number of vertices of a lattice with `g` cells per axis.
pub open spec fn vertex_total(g: int) -> int {
    (g + 1) * (g + 1)
}

/// Cell `(x, y)` of `a` after the loop of `wrap_edges` has handled indices below `i`.
spec fn wrapped_upto<T>(a: TwoDArray<T>, i: int, x: int, y: int) -> T {
    let g = a.w - 1;
    if (x == g && y < i) || (y == g && x < i) {
        a.cell(fold_edge(x, g), fold_edge(y, g))
    } else {
        a.cell(x, y)
    }
}

/// Copies the first column over the last and the first row over the last, so that
/// the square grid `a` tiles without a seam.
pub fn wrap_edges<T: Copy>(a: &mut TwoDArray<T>)
    requires
        old(a).wf(),
        old(a).w == old(a).h,
        old(a).w >= 1,
    ensures
        final(a).wf(),
        final(a).w == old(a).w,
        final(a).h == old(a).h,
        forall|x: int, y: int|
            #![trigger final(a).cell(x, y)]
            in_bounds(x, y, old(a).w as int, old(a).h as int) ==> final(a).cell(x, y) == old(a).cell(
                fold_edge(x, old(a).w - 1),
                fold_edge(y, old(a).w - 1),
            ),
{
    let ghost orig = *a;
    let n: u32 = a.w;
    let g: u32 = n - 1;
    let mut i: u32 = 0;
    while i < n
        invariant
            orig.wf(),
            orig.w == n,
            orig.h == n,
            n >= 1,
            g == n - 1,
            a.w == n,
            a.h == n,
            a.wf(),
            0 <= i <= n,
            forall|x: int, y: int|
                #![trigger a.cell(x, y)]
                in_bounds(x, y, n as int, n as int) ==> a.cell(x, y) == wrapped_upto(
                    orig,
                    i as int,
                    x,
                    y,
                ),
        decreases n - i,
    {
        let ghost before = *a;
        let first_col: T = *a.at_unchecked(0, i);
        let k1 = a.index_of(g, i);
        a.f.set(k1, first_col);
        proof {
            assert forall|x: int, y: int|
                #![trigger a.cell(x, y)]
                in_bounds(x, y, n as int, n as int) implies a.cell(x, y) == (if x == g && y == i {
                    wrapped_upto(orig, i + 1, x, y)
                } else {
                    before.cell(x, y)
                }) by {
                lemma_flat_index_bounds(x, y, n as int, n as int);
                if flat_index(x, y, n as int) == k1 {
                    lemma_flat_index_injective(x, y, g as int, i as int, n as int);
                }
            }
        }
        let ghost middle = *a;
        let first_row: T = *a.at_unchecked(i, 0);
        let k2 = a.index_of(i, g);
        a.f.set(k2, first_row);
        proof {
            assert forall|x: int, y: int|
                #![trigger a.cell(x, y)]
                in_bounds(x, y, n as int, n as int) implies a.cell(x, y) == (if x == i && y == g {
                    wrapped_upto(orig, i + 1, x, y)
                } else {
                    middle.cell(x, y)
                }) by {
                lemma_flat_index_bounds(x, y, n as int, n as int);
                if flat_index(x, y, n as int) == k2 {
                    lemma_flat_index_injective(x, y, i as int, g as int, n as int);
                }
            }
            assert forall|x: int, y: int|
                #![trigger a.cell(x, y)]
                in_bounds(x, y, n as int, n as int) implies a.cell(x, y) == wrapped_upto(
                    orig,
                    i + 1,
                    x,
                    y,
                ) by {
                assert(before.cell(x, y) == wrapped_upto(orig, i as int, x, y));
            }
        }
        i = i + 1;
    }
}

/// Number of vertices, `(g + 1)^2`, of a lattice with `g` cells per axis.
///
/// `g` must be at least one, and the count must be addressable.
pub fn vertex_count(grid_size: u32) -> (r: Result<usize, ConfigError>)
    ensures
        grid_size == 0 <==> r == Err::<usize, ConfigError>(ConfigError::ZeroGridSize),
        grid_size > 0 && (grid_size == u32::MAX || vertex_total(grid_size as int) > usize::MAX)
            <==> r == Err::<usize, ConfigError>(ConfigError::TooLarge),
        r is Ok <==> 0 < grid_size < u32::MAX && vertex_total(grid_size as int) <= usize::MAX,
        r matches Ok(n) ==> n as int == vertex_total(grid_size as int),
{
    if grid_size == 0 {
        return Err(ConfigError::ZeroGridSize);
    }
    if grid_size == u32::MAX {
        return Err(ConfigError::TooLarge);
    }
    let side: u64 = grid_size as u64 + 1;
    assert(side * side <= u32::MAX as int * u32::MAX as int) by (nonlinear_arith)
        requires
            side <= u32::MAX,
    ;
    let total: u64 = side * side;
    if total > usize::MAX as u64 {
        return Err(ConfigError::TooLarge);
    }
    Ok(total as usize)
}

/// A periodic lattice of `grid_size` cells per axis: one height and one gradient
/// for each of its `(grid_size + 1)^2` vertices.
///
/// Heights wrap: the last row and column repeat the first, so sampling at
/// coordinate `grid_size` meets the same heights as at `0`. Gradients are kept
/// as they were drawn, without wrapping.
pub struct GradientLattice<H, G> {
    grid_size: u32,
    heights: TwoDArray<H>,
    gradients: TwoDArray<G>,
}

impl<H, G> GradientLattice<H, G> {
    /// Number of cells per axis.
    pub closed spec fn size(&self) -> int {
        self.grid_size as int
    }

    /// Height stored at vertex `(x, y)`.
    pub closed spec fn height(&self, x: int, y: int) -> H {
        self.heights.cell(x, y)
    }

    /// Gradient stored at vertex `(x, y)`.
    pub closed spec fn gradient(&self, x: int, y: int) -> G {
        self.gradients.cell(x, y)
    }

    /// Both grids are square with `size() + 1` vertices per side, and the heights wrap.
    pub closed spec fn wf(&self) -> bool {
        let n = self.grid_size as int + 1;
        &&& 1 <= self.grid_size < u32::MAX
        &&& self.heights.wf()
        &&& self.gradients.wf()
        &&& self.heights.w as int == n
        &&& self.heights.h as int == n
        &&& self.gradients.w as int == n
        &&& self.gradients.h as int == n
        &&& forall|x: int, y: int|
            #![trigger self.heights.cell(x, y)]
            0 <= x <= self.grid_size && 0 <= y <= self.grid_size ==> self.heights.cell(x, y)
                == self.heights.cell(fold_edge(x, self.grid_size as int), fold_edge(y, self.grid_size as int))
    }

    /// Number of cells per axis.
    pub fn grid_size(&self) -> (r: u32)
        ensures
            r as int == self.size(),
    {
        self.grid_size
    }

    /// Height at vertex `(x, y)`, both within `0..=grid_size`.
    pub fn height_at(&self, x: u32, y: u32) -> (r: &H)
        requires
            self.wf(),
            x <= self.size(),
            y <= self.size(),
        ensures
            *r == self.height(x as int, y as int),
    {
        self.heights.at_unchecked(x, y)
    }

    /// Gradient at vertex `(x, y)`, both within `0..=grid_size`.
    pub fn gradient_at(&self, x: u32, y: u32) -> (r: &G)
        requires
            self.wf(),
            x <= self.size(),
            y <= self.size(),
        ensures
            *r == self.gradient(x as int, y as int),
    {
        self.gradients.at_unchecked(x, y)
    }

    /// Lower corner, along one axis, of the cell that holds a point whose
    /// coordinate on that axis has integer part `floor`.
    ///
    /// A point on the far edge (`floor == grid_size`) belongs to the last cell,
    /// so the cell's far corner `origin + 1` always exists.
    pub fn cell_origin(&self, floor: u32) -> (r: u32)
        requires
            self.wf(),
            floor <= self.size(),
        ensures
            r as int == if floor as int == self.size() {
                self.size() - 1
            } else {
                floor as int
            },
            r + 1 <= self.size(),
    {
        if floor == self.grid_size {
            floor - 1
        } else {
            floor
        }
    }
}

impl<H: Copy, G> GradientLattice<H, G> {
    /// Builds a lattice of `grid_size` cells per axis from one height and one
    /// gradient per vertex, both in row-major order, then wraps the heights.
    pub fn build(grid_size: u32, heights: Vec<H>, gradients: Vec<G>) -> (r: Result<Self, ConfigError>)
        ensures
            grid_size == 0 <==> r == Err::<Self, ConfigError>(ConfigError::ZeroGridSize),
            grid_size > 0 && (grid_size == u32::MAX || vertex_total(grid_size as int) > usize::MAX)
                <==> r == Err::<Self, ConfigError>(ConfigError::TooLarge),
            r == Err::<Self, ConfigError>(ConfigError::SizeMismatch) <==> (0 < grid_size < u32::MAX
                && vertex_total(grid_size as int) <= usize::MAX && (heights@.len() != vertex_total(
                grid_size as int) || gradients@.len() != vertex_total(grid_size as int))),
            r is Ok <==> (0 < grid_size < u32::MAX && vertex_total(grid_size as int) <= usize::MAX
                && heights@.len() == vertex_total(grid_size as int) && gradients@.len() == vertex_total(
                grid_size as int)),
            r matches Ok(l) ==> {
                &&& l.wf()
                &&& l.size() == grid_size as int
                &&& forall|x: int, y: int|
                    #![trigger l.height(x, y)]
                    0 <= x <= grid_size && 0 <= y <= grid_size ==> l.height(x, y) == heights@[flat_index(
                        fold_edge(x, grid_size as int),
                        fold_edge(y, grid_size as int),
                        grid_size + 1,
                    )]
                &&& forall|x: int, y: int|
                    #![trigger l.gradient(x, y)]
                    0 <= x <= grid_size && 0 <= y <= grid_size ==> l.gradient(x, y)
                        == gradients@[flat_index(x, y, grid_size + 1)]
            },
    {
        let total = match vertex_count(grid_size) {
            Ok(n) => n,
            Err(e) => return Err(e),
        };
        if heights.len() != total || gradients.len() != total {
            return Err(ConfigError::SizeMismatch);
        }
        let side: u32 = grid_size + 1;
        let mut heights = match TwoDArray::new(heights, side, side) {
            Some(a) => a,
            None => return Err(ConfigError::SizeMismatch),
        };
        let gradients = match TwoDArray::new(gradients, side, side) {
            Some(a) => a,
            None => return Err(ConfigError::SizeMismatch),
        };
        let ghost drawn = heights;
        wrap_edges(&mut heights);
        let l = GradientLattice { grid_size, heights, gradients };
        assert forall|x: int, y: int|
            #![trigger l.heights.cell(x, y)]
            0 <= x <= grid_size && 0 <= y <= grid_size implies l.heights.cell(x, y)
                == l.heights.cell(fold_edge(x, grid_size as int), fold_edge(y, grid_size as int)) by {
            let fx = fold_edge(x, grid_size as int);
            let fy = fold_edge(y, grid_size as int);
            assert(heights.cell(fx, fy) == drawn.cell(fold_edge(fx, grid_size as int), fold_edge(fy, grid_size as int)));
        }
        Ok(l)
    }
}

/// The heights of a lattice wrap on both axes: on the far column and the far row
/// they repeat the first column and the first row.
pub proof fn lemma_heights_wrap<H, G>(l: &GradientLattice<H, G>)
    requires
        l.wf(),
    ensures
        forall|i: int|
            #![trigger l.height(l.size(), i)]
            0 <= i <= l.size() ==> l.height(l.size(), i) == l.height(0, i),
        forall|i: int|
            #![trigger l.height(i, l.size())]
            0 <= i <= l.size() ==> l.height(i, l.size()) == l.height(i, 0),
{
    assert forall|i: int| 0 <= i <= l.size() implies #[trigger] l.height(l.size(), i) == l.height(0, i) by {
        assert(l.heights.cell(l.size(), i) == l.heights.cell(0, fold_edge(i, l.size())));
        assert(l.heights.cell(0, i) == l.heights.cell(0, fold_edge(i, l.size())));
    }
    assert forall|i: int| 0 <= i <= l.size() implies #[trigger] l.height(i, l.size()) == l.height(i, 0) by {
        assert(l.heights.cell(i, l.size()) == l.heights.cell(fold_edge(i, l.size()), 0));
        assert(l.heights.cell(i, 0) == l.heights.cell(fold_edge(i, l.size()), 0));
    }
}

} // verus!
