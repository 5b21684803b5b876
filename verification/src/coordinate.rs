//! Signed pixel coordinates and their bounds-checked mapping to buffer indices.

use vstd::prelude::*;

verus! {

/// A position in canvas pixel space. Either component may be negative or lie
/// beyond the canvas.
#[derive(Clone, Copy, Debug, PartialEq, Eq, Structural)]
pub struct Coordinate {
    pub x: isize,
    pub y: isize,
}

impl Coordinate {
    /// Whether the coordinate lies on a grid of `width` columns and `height` rows.
    pub open spec fn in_bounds(self, width: int, height: int) -> bool {
        0 <= self.x < width && 0 <= self.y < height
    }

    /// The row-major index of the coordinate on a grid `width` columns wide.
    pub open spec fn linear_index(self, width: int) -> int {
        self.y * width + self.x
    }

    /// The row-major buffer index of the coordinate, or `None` when it lies
    /// outside the `width` by `height` grid.
    pub fn to_idx(self, width: usize, height: usize) -> (idx: Option<usize>)
        requires
            width * height <= usize::MAX,
        ensures
            idx.is_some() <==> self.in_bounds(width as int, height as int),
            idx matches Some(i) ==> i == self.linear_index(width as int) && i < width * height,
    {
        if self.x < 0 || self.y < 0 {
            return None;
        }
        let x: usize = self.x as usize;
        let y: usize = self.y as usize;
        if x >= width || y >= height {
            return None;
        }
        assert(y * width + x < width * height) by (nonlinear_arith)
            requires
                x < width,
                y < height,
        ;
        assert(y * width <= y * width + x) by (nonlinear_arith);
        Some(y * width + x)
    }
}

} // verus!
