//! Rasterized glyphs as plain values: what a font engine hands over once it has
//! laid a text out and rendered each glyph at the chosen scale.

use vstd::prelude::*;

verus! {

/// The pixels of one glyph inside its pixel bounding box.
#[derive(Debug)]
pub struct GlyphBitmap {
    /// The column of the grid in which the bounding box starts.
    pub left: i32,
    /// The row of the grid in which the bounding box starts.
    pub top: i32,
    /// The number of pixel columns of the bounding box.
    pub width: usize,
    /// The number of pixel rows of the bounding box.
    pub height: usize,
    /// The coverage of each pixel, row after row. A coverage is the fraction
    /// of the pixel that the outline covers, held as the bit pattern of an
    /// IEEE 754 single-precision number.
    pub coverage: Vec<u32>,
}

/// One glyph of a laid-out line.
#[derive(Debug)]
pub struct Glyph {
    /// Where the pen stands after this glyph: its origin plus its horizontal
    /// advance, in pixels, rounded up.
    pub advance_end: usize,
    /// The rendered pixels; `None` for a glyph without a bounding box, such as
    /// a space.
    pub bitmap: Option<GlyphBitmap>,
}

/// The coverage is greater than one half. Read as a single-precision number,
/// `0x3F00_0000` is one half and `0x7F80_0000` is positive infinity; the
/// patterns between them are the positive numbers above one half in their
/// order, those beyond are not numbers or are negative.
pub open spec fn is_solid(coverage: u32) -> bool {
    0x3F00_0000 < coverage <= 0x7F80_0000
}

/// The coverage is not zero. Zero has the two patterns `0` and `0x8000_0000`.
pub open spec fn is_inked(coverage: u32) -> bool {
    coverage != 0 && coverage != 0x8000_0000
}

/// Whether a coverage is not zero, as a predicate to select pixels by.
pub open spec fn has_ink() -> spec_fn(u32) -> bool {
    |coverage: u32| is_inked(coverage)
}

/// Whether more than half of the pixel is covered.
pub fn solid(coverage: u32) -> (b: bool)
    ensures
        b == is_solid(coverage),
{
    0x3F00_0000 < coverage && coverage <= 0x7F80_0000
}

/// Whether any of the pixel is covered.
pub fn inked(coverage: u32) -> (b: bool)
    ensures
        b == is_inked(coverage),
{
    coverage != 0 && coverage != 0x8000_0000
}

impl GlyphBitmap {
    /// There is one coverage for each pixel of the bounding box.
    pub open spec fn wf(&self) -> bool {
        self.coverage@.len() == self.width * self.height
    }

    /// The number of pixels with a coverage that is not zero.
    pub open spec fn ink(&self) -> nat {
        self.coverage@.filter(has_ink()).len()
    }

    /// Whether the bitmap covers more than half of the grid's pixel in column
    /// `x` of row `y`.
    pub open spec fn solid_at(&self, x: int, y: int) -> bool {
        &&& 0 <= x - self.left < self.width
        &&& 0 <= y - self.top < self.height
        &&& is_solid(self.coverage@[(y - self.top) * self.width + (x - self.left)])
    }
}

impl Glyph {
    /// The bitmap, where there is one, is well formed.
    pub open spec fn wf(&self) -> bool {
        match self.bitmap {
            Some(bitmap) => bitmap.wf(),
            None => true,
        }
    }

    /// The number of pixels with a coverage that is not zero; none for a
    /// glyph without a bitmap.
    pub open spec fn ink(&self) -> nat {
        match self.bitmap {
            Some(bitmap) => bitmap.ink(),
            None => 0,
        }
    }

    /// Whether the glyph covers more than half of the grid's pixel in column
    /// `x` of row `y`.
    pub open spec fn solid_at(&self, x: int, y: int) -> bool {
        match self.bitmap {
            Some(bitmap) => bitmap.solid_at(x, y),
            None => false,
        }
    }
}

} // verus!
