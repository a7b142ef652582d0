//! The intensity grid: a rectangle of 8-bit brightness samples.

use vstd::prelude::*;

verus! {

/// The largest number of samples a grid may hold. Every counter derived from
/// a grid (a histogram bucket, the sample total) then fits in a `u32`.
pub const MAX_SAMPLES: u32 = 0xFFFF_FFFF;

/// Whether `width` by `height` is a usable shape for `len` samples: both
/// sides at least one, at most `MAX_SAMPLES` samples, and one sample per cell.
pub open spec fn valid_shape(width: nat, height: nat, len: nat) -> bool {
    &&& 1 <= width
    &&& 1 <= height
    &&& width * height <= MAX_SAMPLES
    &&& len == width * height
}

/// A grid as mathematical values: its dimensions and its samples row by row.
pub struct GridView {
    pub width: nat,
    pub height: nat,
    pub samples: Seq<u8>,
}

/// A non-empty rectangle of 8-bit intensity samples, stored row by row.
#[derive(Debug)]
pub struct IntensityGrid {
    width: u32,
    height: u32,
    samples: Vec<u8>,
}

impl View for IntensityGrid {
    type V = GridView;

    closed spec fn view(&self) -> GridView {
        GridView {
            width: self.width as nat,
            height: self.height as nat,
            samples: self.samples@,
        }
    }
}

impl IntensityGrid {
    #[verifier::type_invariant]
    spec fn well_formed(&self) -> bool {
        valid_shape(self.width as nat, self.height as nat, self.samples@.len())
    }

    /// Builds a grid from its dimensions and samples, if they form a valid
    /// shape.
    pub fn new(width: u32, height: u32, samples: Vec<u8>) -> (grid: Option<Self>)
        ensures
            grid is Some <==> valid_shape(width as nat, height as nat, samples@.len()),
            grid matches Some(g) ==> g@ == (GridView {
                width: width as nat,
                height: height as nat,
                samples: samples@,
            }),
    {
        if width == 0 || height == 0 {
            return None;
        }
        assert((width as nat) * (height as nat) <= 0xFFFF_FFFF * 0xFFFF_FFFF) by (nonlinear_arith)
            requires
                width <= 0xFFFF_FFFF,
                height <= 0xFFFF_FFFF,
        ;
        let cells: u64 = (width as u64) * (height as u64);
        if cells > MAX_SAMPLES as u64 || samples.len() as u64 != cells {
            return None;
        }
        Some(IntensityGrid { width, height, samples })
    }

    /// The number of columns.
    pub fn width(&self) -> (w: u32)
        ensures
            w == self@.width,
    {
        self.width
    }

    /// The number of rows.
    pub fn height(&self) -> (h: u32)
        ensures
            h == self@.height,
    {
        self.height
    }

    /// The number of samples, which is the width times the height.
    pub fn sample_count(&self) -> (n: u32)
        ensures
            n == self@.samples.len(),
            n >= 1,
            valid_shape(self@.width, self@.height, self@.samples.len()),
    {
        proof {
            use_type_invariant(self);
            assert(self.width * self.height >= 1) by (nonlinear_arith)
                requires
                    self.width >= 1,
                    self.height >= 1,
            ;
        }
        self.samples.len() as u32
    }

    /// The samples, row by row.
    pub fn samples(&self) -> (s: &Vec<u8>)
        ensures
            s@ == self@.samples,
    {
        &self.samples
    }
}

} // verus!
