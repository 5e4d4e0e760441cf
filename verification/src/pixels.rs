//! The drawable frame model: an ordered list of full and partial cells
//! over a grid. Partial cells are positioned by exact fractions of one
//! cell, so that sub-tick interpolation can be stated and checked
//! without approximation.

use vstd::prelude::*;

verus! {

/// An exact fraction `num / den` of one grid cell, used for the corner
/// offsets and the extent of a partial cell. `num` may be negative: a
/// partial cell can begin inside the neighbouring cell.
#[derive(Clone, Copy, PartialEq, Eq, Structural, Debug)]
pub struct Frac {
    pub num: i64,
    pub den: u64,
}

/// The fill colour of a drawable cell.
#[derive(Clone, Copy, PartialEq, Eq, Structural, Debug)]
pub enum PixelColor {
    Red,
    Green,
    White,
    Blue,
}

/// One drawable element: either a full cell at `(x, y)`, or a partial
/// cell whose top-left corner is offset from `(x, y)` by the fractions
/// `c1` and whose width and height are the fractions `c2`.
#[derive(Clone, Copy, PartialEq, Eq, Debug)]
pub enum PixelData {
    Pixel { x: u32, y: u32, color: PixelColor },
    SubPixel { x: u32, y: u32, c1: (Frac, Frac), c2: (Frac, Frac), color: PixelColor },
}

/// An ordered list of drawable cells over a `width` by `height` grid;
/// later entries paint over earlier ones.
pub struct GraphicsData {
    pub pixels: Vec<PixelData>,
    pub width: u32,
    pub height: u32,
}

impl GraphicsData {
    /// An empty frame over a `width` by `height` grid.
    pub fn new(width: u32, height: u32) -> (r: GraphicsData)
        ensures
            r.width == width,
            r.height == height,
            r.pixels@ == Seq::<PixelData>::empty(),
    {
        GraphicsData { pixels: Vec::new(), width, height }
    }

    /// Appends a full cell at `(x, y)`.
    pub fn add_pixel(&mut self, x: u32, y: u32, color: PixelColor)
        ensures
            final(self).pixels@ == old(self).pixels@.push((PixelData::Pixel { x, y, color })),
            final(self).width == old(self).width,
            final(self).height == old(self).height,
    {
        self.pixels.push(PixelData::Pixel { x, y, color })
    }

    /// Appends a partial cell at `(x, y)` with corner offset `c1` and
    /// extent `c2`.
    pub fn add_sub_pixel(&mut self, x: u32, y: u32, c1: (Frac, Frac), c2: (Frac, Frac), color: PixelColor)
        ensures
            final(self).pixels@ == old(self).pixels@.push((PixelData::SubPixel { x, y, c1, c2, color })),
            final(self).width == old(self).width,
            final(self).height == old(self).height,
    {
        self.pixels.push(PixelData::SubPixel { x, y, c1, c2, color })
    }
}

} // verus!
