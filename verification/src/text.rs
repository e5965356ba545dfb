//! Text rendering: the glyphs of a laid-out line are stamped into a grid, one
//! character for each pixel that a glyph covers by more than half.

use crate::glyph::{solid, Glyph, GlyphBitmap};
use crate::grid::Char2DArray;
use vstd::prelude::*;

verus! {

/// The width of the grid for a line of glyphs: where the pen stands after the
/// last glyph, and zero for a line without glyphs.
pub open spec fn line_width(glyphs: Seq<Glyph>) -> usize {
    if glyphs.len() == 0 {
        0
    } else {
        glyphs.last().advance_end
    }
}

/// The character that the glyph at `index` is drawn with: `ch` before the
/// threshold of `ch2nd`, the second character from the threshold on, and
/// always `ch` where no second character is given.
pub open spec fn glyph_char(index: int, ch: char, ch2nd: Option<(usize, char)>) -> char {
    match ch2nd {
        Some((threshold, second)) => if index < threshold {
            ch
        } else {
            second
        },
        None => ch,
    }
}

/// The cell in column `x` of row `y` once the first `count` glyphs have been
/// stamped, in their order, onto a grid of spaces: the character of the last
/// of them that covers the pixel by more than half, and a space where none does.
pub open spec fn text_cell(
    glyphs: Seq<Glyph>,
    count: nat,
    ch: char,
    ch2nd: Option<(usize, char)>,
    x: int,
    y: int,
) -> char
    decreases count,
{
    if count == 0 {
        ' '
    } else if glyphs[count - 1].solid_at(x, y) {
        glyph_char(count - 1, ch, ch2nd)
    } else {
        text_cell(glyphs, (count - 1) as nat, ch, ch2nd, x, y)
    }
}

/// Writes `c` into every cell of the grid that the bitmap covers by more than
/// half. Pixels of the bitmap that fall outside the grid are skipped.
fn stamp(grid: &mut Char2DArray, bitmap: &GlyphBitmap, c: char)
    requires
        old(grid).wf(),
        bitmap.wf(),
    ensures
        final(grid).wf(),
        final(grid).width() == old(grid).width(),
        final(grid).height() == old(grid).height(),
        forall|x: int, y: int|
            0 <= y < old(grid).height() && 0 <= x < old(grid).width()
                ==> #[trigger] final(grid)@[y][x] == if bitmap.solid_at(x, y) {
                c
            } else {
                old(grid)@[y][x]
            },
{
    let ghost before = grid@;
    let ghost width = grid.width();
    let ghost height = grid.height();
    let pixels = bitmap.coverage.len();
    let mut k: usize = 0;
    let mut ly: usize = 0;
    while ly < bitmap.height
        invariant
            grid.wf(),
            bitmap.wf(),
            grid.width() == width,
            grid.height() == height,
            pixels == bitmap.coverage@.len(),
            ly <= bitmap.height,
            k == ly * bitmap.width,
            forall|x: int, y: int|
                0 <= y < height && 0 <= x < width ==> #[trigger] grid@[y][x] == if bitmap.solid_at(
                    x,
                    y,
                ) && y - bitmap.top < ly {
                    c
                } else {
                    before[y][x]
                },
        decreases bitmap.height - ly,
    {
        let mut lx: usize = 0;
        while lx < bitmap.width
            invariant
                grid.wf(),
                bitmap.wf(),
                grid.width() == width,
                grid.height() == height,
                pixels == bitmap.coverage@.len(),
                ly < bitmap.height,
                lx <= bitmap.width,
                k == ly * bitmap.width + lx,
                forall|x: int, y: int|
                    0 <= y < height && 0 <= x < width ==> #[trigger] grid@[y][x]
                        == if bitmap.solid_at(x, y) && (y - bitmap.top < ly || (y - bitmap.top == ly
                        && x - bitmap.left < lx)) {
                        c
                    } else {
                        before[y][x]
                    },
            decreases bitmap.width - lx,
        {
            assert(ly * bitmap.width + lx < bitmap.width * bitmap.height) by (nonlinear_arith)
                requires
                    ly < bitmap.height,
                    lx < bitmap.width,
            ;
            if solid(bitmap.coverage[k]) {
                let x: i128 = bitmap.left as i128 + lx as i128;
                let y: i128 = bitmap.top as i128 + ly as i128;
                if 0 <= x && x < grid.width() as i128 && 0 <= y && y < grid.height() as i128 {
                    grid.put(x as usize, y as usize, c);
                }
            }
            k += 1;
            lx += 1;
        }
        ly += 1;
        assert(k == ly * bitmap.width) by (nonlinear_arith)
            requires
                k == (ly - 1) * bitmap.width + bitmap.width,
        ;
    }
}

/// Renders a laid-out line of glyphs into a grid of `height` rows.
///
/// The grid is as wide as [`line_width`] says. Every glyph is stamped in turn:
/// each pixel that it covers by more than half, and that lies inside the grid,
/// receives the glyph's character. Glyphs before the threshold of `ch2nd` are
/// drawn with `ch`, the others with the second character; without `ch2nd`
/// every glyph is drawn with `ch`. All other cells hold a space.
pub fn string2ascii(
    glyphs: &Vec<Glyph>,
    height: usize,
    ch: char,
    ch2nd: Option<(usize, char)>,
) -> (grid: Char2DArray)
    requires
        forall|i: int| 0 <= i < glyphs@.len() ==> (#[trigger] glyphs@[i]).wf(),
    ensures
        grid.wf(),
        grid.width() == line_width(glyphs@),
        glyphs@.len() == 0 ==> grid.width() == 0,
        grid.height() == height,
        forall|x: int, y: int|
            0 <= y < height && 0 <= x < grid.width() ==> #[trigger] grid@[y][x] == text_cell(
                glyphs@,
                glyphs@.len(),
                ch,
                ch2nd,
                x,
                y,
            ),
{
    let width = if glyphs.len() == 0 {
        0
    } else {
        glyphs[glyphs.len() - 1].advance_end
    };
    let mut grid = Char2DArray::new(width, height);
    let mut i: usize = 0;
    while i < glyphs.len()
        invariant
            i <= glyphs@.len(),
            grid.wf(),
            grid.width() == width,
            grid.height() == height,
            forall|j: int| 0 <= j < glyphs@.len() ==> (#[trigger] glyphs@[j]).wf(),
            forall|x: int, y: int|
                0 <= y < height && 0 <= x < width ==> #[trigger] grid@[y][x] == text_cell(
                    glyphs@,
                    i as nat,
                    ch,
                    ch2nd,
                    x,
                    y,
                ),
        decreases glyphs@.len() - i,
    {
        let c = match ch2nd {
            Some((threshold, second)) => if i < threshold {
                ch
            } else {
                second
            },
            None => ch,
        };
        match &glyphs[i].bitmap {
            Some(bitmap) => {
                stamp(&mut grid, bitmap, c);
            },
            None => {},
        }
        i += 1;
    }
    grid
}

} // verus!
