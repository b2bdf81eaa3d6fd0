//! Rectangular pixel grids, addressed row-major from the top-left corner.

use vstd::prelude::*;
use vstd::std_specs::vec::spec_vec_len;
use crate::pixel::Pixel;

verus! {

/// A two-dimensional grid of pixels, `width` columns by `height` rows.
/// Coordinate `(x, y)` has `0 <= x < width` and `0 <= y < height`; the origin
/// is top-left, `x` grows rightward and `y` downward. Pixels are stored
/// row-major: `(x, y)` lives at index `y * width + x`.
pub struct Raster {
    pub width: u32,
    pub height: u32,
    pub data: Vec<Pixel>,
}

impl Raster {
    /// The grid is well-formed: the pixel store covers exactly
    /// `width * height` cells.
    pub open spec fn wf(self) -> bool {
        self.data@.len() == self.width * self.height
    }

    /// The pixel at `(x, y)`, as a mathematical lookup.
    pub open spec fn pix(self, x: int, y: int) -> Pixel {
        self.data@[y * self.width + x]
    }

    /// `(x, y)` lies inside the grid.
    pub open spec fn in_bounds(self, x: int, y: int) -> bool {
        0 <= x < self.width && 0 <= y < self.height
    }

    /// Two rasters have the same dimensions.
    pub open spec fn same_dims(self, other: Raster) -> bool {
        self.width == other.width && self.height == other.height
    }

    /// The row-major index of an in-bounds coordinate lies inside the store.
    pub proof fn lemma_index_in_range(self, x: int, y: int)
        requires
            self.wf(),
            self.in_bounds(x, y),
        ensures
            0 <= y * self.width + x < self.data@.len(),
            y * self.width + x <= usize::MAX,
    {
        assert(y * self.width + x < self.width * self.height) by (nonlinear_arith)
            requires
                0 <= x < self.width,
                0 <= y < self.height,
        ;
        assert(self.data@.len() == spec_vec_len(&self.data));
    }

    /// Read the pixel at `(x, y)`.
    pub fn get_pixel(&self, x: u32, y: u32) -> (p: Pixel)
        requires
            self.wf(),
            self.in_bounds(x as int, y as int),
        ensures
            p == self.pix(x as int, y as int),
    {
        proof {
            self.lemma_index_in_range(x as int, y as int);
        }
        let idx: usize = (y as usize) * (self.width as usize) + (x as usize);
        self.data[idx]
    }

    /// Overwrite the pixel at `(x, y)`; every other pixel is untouched.
    pub fn put_pixel(&mut self, x: u32, y: u32, p: Pixel)
        requires
            old(self).wf(),
            old(self).in_bounds(x as int, y as int),
        ensures
            final(self).wf(),
            final(self).same_dims(*old(self)),
            final(self).pix(x as int, y as int) == p,
            forall|i: int, j: int|
                old(self).in_bounds(i, j) && !(i == x && j == y)
                    ==> final(self).pix(i, j) == old(self).pix(i, j),
    {
        proof {
            old(self).lemma_index_in_range(x as int, y as int);
        }
        let idx: usize = (y as usize) * (self.width as usize) + (x as usize);
        self.data[idx] = p;
        proof {
            assert forall|i: int, j: int|
                old(self).in_bounds(i, j) && !(i == x && j == y)
                    implies self.pix(i, j) == old(self).pix(i, j) by {
                old(self).lemma_index_in_range(i, j);
                lemma_row_major_injective(self.width as int, i, j, x as int, y as int);
            }
        }
    }
}

/// Distinct in-bounds coordinates have distinct row-major indices.
proof fn lemma_row_major_injective(w: int, x1: int, y1: int, x2: int, y2: int)
    requires
        0 <= x1 < w,
        0 <= x2 < w,
        0 <= y1,
        0 <= y2,
        !(x1 == x2 && y1 == y2),
    ensures
        y1 * w + x1 != y2 * w + x2,
{
    assert(y1 * w + x1 != y2 * w + x2) by (nonlinear_arith)
        requires
            0 <= x1 < w,
            0 <= x2 < w,
            0 <= y1,
            0 <= y2,
            !(x1 == x2 && y1 == y2),
    ;
}

} // verus!
