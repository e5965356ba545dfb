//! Pasting one grid onto another, clipped at the edges of the base.

use crate::grid::{rectangular, Char2DArray, CharPosition};
use vstd::prelude::*;

verus! {

/// What a source grid paints onto the cell in column `x` of row `y` when its
/// first cell is placed in column `left` of row `top`: the source cell that
/// lands there, unless it is the transparent marker; `None` where no source
/// cell lands.
pub open spec fn painted(
    rect: Seq<Seq<char>>,
    left: int,
    top: int,
    transparent: Option<char>,
    x: int,
    y: int,
) -> Option<char> {
    if 0 <= y - top < rect.len() && 0 <= x - left < rect[y - top].len() && transparent != Some(
        rect[y - top][x - left],
    ) {
        Some(rect[y - top][x - left])
    } else {
        None
    }
}

/// The base grid after a source grid has been pasted with its first cell in
/// column `left` of row `top`. Source cells that land outside the base are
/// lost; the base keeps its size.
pub open spec fn pasted(
    base: Seq<Seq<char>>,
    rect: Seq<Seq<char>>,
    left: int,
    top: int,
    transparent: Option<char>,
) -> Seq<Seq<char>> {
    Seq::new(
        base.len(),
        |y: int|
            Seq::new(
                base[y].len(),
                |x: int|
                    match painted(rect, left, top, transparent, x, y) {
                        Some(ch) => ch,
                        None => base[y][x],
                    },
            ),
    )
}

/// Pasting keeps the size of the base, and a cell of the base changes only
/// where a source cell lands on it.
pub proof fn lemma_pasted_clips(
    base: Seq<Seq<char>>,
    rect: Seq<Seq<char>>,
    left: int,
    top: int,
    transparent: Option<char>,
    x: int,
    y: int,
)
    requires
        0 <= y < base.len(),
        0 <= x < base[y].len(),
    ensures
        pasted(base, rect, left, top, transparent).len() == base.len(),
        pasted(base, rect, left, top, transparent)[y].len() == base[y].len(),
        !(0 <= y - top < rect.len() && 0 <= x - left < rect[y - top].len()) ==> pasted(
            base,
            rect,
            left,
            top,
            transparent,
        )[y][x] == base[y][x],
        0 <= y - top < rect.len() && 0 <= x - left < rect[y - top].len() && transparent != Some(
            rect[y - top][x - left],
        ) ==> pasted(base, rect, left, top, transparent)[y][x] == rect[y - top][x - left],
{
}

/// A source cell that holds the transparent marker never overwrites the cell
/// it lands on.
pub proof fn lemma_transparent_cell_is_kept(
    base: Seq<Seq<char>>,
    rect: Seq<Seq<char>>,
    left: int,
    top: int,
    marker: char,
    x: int,
    y: int,
)
    requires
        0 <= y < base.len(),
        0 <= x < base[y].len(),
        0 <= y - top < rect.len(),
        0 <= x - left < rect[y - top].len(),
        rect[y - top][x - left] == marker,
    ensures
        pasted(base, rect, left, top, Some(marker))[y][x] == base[y][x],
{
}

/// The offset that centres a span of `inner` cells on a span of `outer` cells.
pub open spec fn centered(outer: int, inner: int) -> int {
    outer / 2 - inner / 2
}

/// The value `at` held to the range from zero to `limit`.
spec fn clip_spec(at: int, limit: int) -> int {
    if at < 0 {
        0
    } else if at > limit {
        limit
    } else {
        at
    }
}

/// Computes [`clip_spec`].
fn clip(at: i128, limit: usize) -> (clipped: usize)
    ensures
        clipped == clip_spec(at as int, limit as int),
{
    if at < 0 {
        0
    } else if at > limit as i128 {
        limit
    } else {
        at as usize
    }
}

impl Char2DArray {
    /// Pastes `rect` with its first cell in column `left` of row `top`.
    fn paste(&mut self, rect: &Char2DArray, left: i128, top: i128, transparent: Option<char>)
        requires
            old(self).wf(),
            rect.wf(),
            -0x1_0000_0000_0000_0000 <= left <= 0x1_0000_0000_0000_0000,
            -0x1_0000_0000_0000_0000 <= top <= 0x1_0000_0000_0000_0000,
        ensures
            final(self).wf(),
            final(self).width() == old(self).width(),
            final(self).height() == old(self).height(),
            final(self)@ == pasted(old(self)@, rect@, left as int, top as int, transparent),
    {
        let ghost before = self@;
        let ghost after = pasted(before, rect@, left as int, top as int, transparent);
        let width = self.width;
        let height = self.height;
        let y_start = clip(top, height);
        let y_end = clip(top + rect.height as i128, height);
        let x_start = clip(left, width);
        let x_end = clip(left + rect.width as i128, width);
        assert forall|row: int|
            0 <= row < height && (row < y_start || row >= y_end) implies after[row]
            == before[row] by {}
        let mut y = y_start;
        while y < y_end
            invariant
                self.wf(),
                rect.wf(),
                self.width == width,
                self.height == height,
                before.len() == height,
                rectangular(before, width as nat),
                after == pasted(before, rect@, left as int, top as int, transparent),
                y_start == clip_spec(top as int, height as int),
                y_end == clip_spec(top + rect.height, height as int),
                x_start == clip_spec(left as int, width as int),
                x_end == clip_spec(left + rect.width, width as int),
                y_start <= y,
                forall|row: int|
                    0 <= row < height && (row < y || row >= y_end) ==> #[trigger] self@[row]
                        == after[row],
                forall|row: int| y <= row < y_end ==> #[trigger] self@[row] == before[row],
            decreases y_end - y,
        {
            let ghost source_row = rect@[y - top];
            assert forall|column: int|
                0 <= column < width && (column < x_start || column >= x_end)
                implies after[y as int][column] == before[y as int][column] by {}
            let mut x = x_start;
            while x < x_end
                invariant
                    self.wf(),
                    rect.wf(),
                    self.width == width,
                    self.height == height,
                    before.len() == height,
                    rectangular(before, width as nat),
                    after == pasted(before, rect@, left as int, top as int, transparent),
                    y_end == clip_spec(top + rect.height, height as int),
                    x_start == clip_spec(left as int, width as int),
                    x_end == clip_spec(left + rect.width, width as int),
                    0 <= y - top < rect.height,
                    y < y_end,
                    x_start <= x,
                    source_row == rect@[y - top],
                    source_row.len() == rect.width,
                    forall|row: int|
                        0 <= row < height && (row < y || row >= y_end) ==> #[trigger] self@[row]
                            == after[row],
                    forall|row: int| y < row < y_end ==> #[trigger] self@[row] == before[row],
                    forall|column: int|
                        0 <= column < width ==> #[trigger] self@[y as int][column] == if column < x
                            || column >= x_end {
                            after[y as int][column]
                        } else {
                            before[y as int][column]
                        },
                decreases x_end - x,
            {
                let source = rect.buffer[(y as i128 - top) as usize][(x as i128 - left) as usize];
                let skip = match transparent {
                    Some(ch) => source == ch,
                    None => false,
                };
                if !skip {
                    self.put(x, y, source);
                }
                x += 1;
            }
            y += 1;
        }
    }

    /// Copies the cells of `rect` into this grid, the first cell of `rect`
    /// going to `position`. Cells of `rect` that would land outside this grid
    /// are skipped; so are, where `transparent` is given, the cells of `rect`
    /// that hold that character.
    pub fn overwrite_rect(
        &mut self,
        rect: &Char2DArray,
        position: CharPosition,
        transparent: Option<char>,
    )
        requires
            old(self).wf(),
            rect.wf(),
        ensures
            final(self).wf(),
            final(self).width() == old(self).width(),
            final(self).height() == old(self).height(),
            final(self)@ == pasted(
                old(self)@,
                rect@,
                position.x as int,
                position.y as int,
                transparent,
            ),
    {
        self.paste(rect, position.x as i128, position.y as i128, transparent)
    }

    /// Like [`Char2DArray::overwrite_rect`], with `position` counted from the
    /// place at which `rect` lies centred on this grid: in each direction
    /// half of this grid's size less half of the size of `rect`, each half
    /// rounded down. The offset is negative where `rect` is the larger one.
    pub fn overwrite_rect_center(
        &mut self,
        rect: &Char2DArray,
        position: CharPosition,
        transparent: Option<char>,
    )
        requires
            old(self).wf(),
            rect.wf(),
        ensures
            final(self).wf(),
            final(self).width() == old(self).width(),
            final(self).height() == old(self).height(),
            final(self)@ == pasted(
                old(self)@,
                rect@,
                position.x + centered(old(self).width() as int, rect.width() as int),
                position.y + centered(old(self).height() as int, rect.height() as int),
                transparent,
            ),
    {
        let center_x: i128 = (self.width / 2) as i128 - (rect.width / 2) as i128;
        let center_y: i128 = (self.height / 2) as i128 - (rect.height / 2) as i128;
        self.paste(rect, position.x as i128 + center_x, position.y as i128 + center_y, transparent)
    }

    /// Copies `src` into this grid, first cell onto first cell; what of `src`
    /// does not fit is left out.
    pub fn copy_from(&mut self, src: &Char2DArray)
        requires
            old(self).wf(),
            src.wf(),
        ensures
            final(self).wf(),
            final(self).width() == old(self).width(),
            final(self).height() == old(self).height(),
            final(self)@ == pasted(old(self)@, src@, 0, 0, None),
    {
        self.overwrite_rect(src, CharPosition { x: 0, y: 0 }, Option::None);
    }
}

} // verus!
