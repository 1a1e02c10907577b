use vstd::prelude::*;

verus! {

/// The largest number of cells a grid may hold.
pub const MAX_CELLS: usize = 0x100_0000;

/// A signed position. Negative components lie off-canvas toward the origin.
#[derive(Debug, Clone, Copy, PartialEq, Eq, Structural)]
pub struct Coordinate {
    pub x: i32,
    pub y: i32,
}

/// A width (`x`) and a height (`y`), counted in cells.
#[derive(Debug, Clone, Copy, PartialEq, Eq, Structural)]
pub struct Dimension {
    pub x: usize,
    pub y: usize,
}

/// Whether a grid of `width` columns and `height` rows can be held: neither
/// side nor the number of cells is above [`MAX_CELLS`].
pub open spec fn holdable(width: int, height: int) -> bool {
    &&& 0 <= width <= MAX_CELLS
    &&& 0 <= height <= MAX_CELLS
    &&& width * height <= MAX_CELLS
}

impl Dimension {
    /// Whether a grid of this size can be held.
    pub open spec fn fits(self) -> bool {
        holdable(self.x as int, self.y as int)
    }

    /// Decides [`Dimension::fits`] without overflowing.
    pub fn is_allocatable(&self) -> (ok: bool)
        ensures
            ok == self.fits(),
    {
        if self.x > MAX_CELLS || self.y > MAX_CELLS {
            false
        } else {
            assert(self.x * self.y <= 0x100_0000 * 0x100_0000) by (nonlinear_arith)
                requires
                    self.x <= 0x100_0000,
                    self.y <= 0x100_0000,
            ;
            let wide: u64 = self.x as u64;
            let high: u64 = self.y as u64;
            wide * high <= MAX_CELLS as u64
        }
    }
}

} // verus!
