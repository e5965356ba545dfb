//! Character-grid renderings of pictures and text.
//!
//! A [`Char2DArray`] is a rectangular grid of characters with pasting and
//! overwriting operations that clip at its edges. Two renderers fill one:
//! [`image2ascii`] draws a decoded picture, mapping each pixel's luminance to a
//! character of a density palette ([`ascii2density`]), and [`string2ascii`]
//! stamps the rasterized glyphs of a line of text.
//!
//! Whatever works in floating point stays with the caller: a font engine lays
//! out and rasterizes, and hands its glyphs over as [`Glyph`] values; a picture
//! has its contrast adjusted before it comes here.

pub mod font;
pub mod glyph;
pub mod grid;
pub mod palette;
pub mod picture;
pub mod text;

pub use crate::font::load_font;
pub use crate::glyph::{Glyph, GlyphBitmap};
pub use crate::grid::{Char2DArray, CharPosition};
pub use crate::palette::{ascii2density, pad, palette_chars, ASCIIS, PALETTE_SIZE};
pub use crate::picture::{image2ascii, luma2ascii, open_failure, picture_height};
pub use crate::text::string2ascii;
