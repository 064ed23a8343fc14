//! Card geometry: pixel dimensions, cut and safe insets, and raster density.
use vstd::prelude::*;

verus! {

/// The geometry of one card layout, in pixels at the given dots-per-inch.
#[derive(PartialEq, Eq, Debug, Clone, Copy, Structural)]
pub struct Geometry {
    pub width: usize,
    pub height: usize,
    pub cut: Insets,
    pub safe: Insets,
    pub dpi: usize,
}

/// Per-side inset distances, in pixels.
#[derive(PartialEq, Eq, Debug, Clone, Copy, Structural)]
pub struct Insets {
    pub top: usize,
    pub right: usize,
    pub bottom: usize,
    pub left: usize,
}

impl Insets {
    /// The same inset on all four sides.
    pub fn uniform(size: usize) -> (r: Insets)
        ensures
            r == (Insets { top: size, right: size, bottom: size, left: size }),
    {
        Insets { top: size, right: size, bottom: size, left: size }
    }
}

impl Geometry {
    /// The pixel size of the area inside the cut lines: what survives
    /// trimming, and the area a sheet slot clips to.
    pub fn content_size(&self) -> (r: (usize, usize))
        ensures
            r.0 == if self.cut.left + self.cut.right <= self.width {
                self.width - self.cut.left - self.cut.right
            } else {
                0
            },
            r.1 == if self.cut.top + self.cut.bottom <= self.height {
                self.height - self.cut.top - self.cut.bottom
            } else {
                0
            },
    {
        let w = if self.cut.left <= self.width && self.cut.right <= self.width - self.cut.left {
            self.width - self.cut.left - self.cut.right
        } else {
            0
        };
        let h = if self.cut.top <= self.height && self.cut.bottom <= self.height - self.cut.top {
            self.height - self.cut.top - self.cut.bottom
        } else {
            0
        };
        (w, h)
    }
}

} // verus!
