//! The character grid: a rectangular buffer of characters that every renderer
//! fills and that is read out line by line.

use vstd::prelude::*;

pub mod lines;
pub mod paste;
pub mod select;

verus! {

/// A cell coordinate. It may be negative or lie beyond a grid's edges.
#[derive(Debug, Copy, Clone)]
pub struct CharPosition {
    pub x: i32,
    pub y: i32,
}

/// A grid of `height` rows with `width` characters each.
///
/// `buffer` is open to callers; every operation asks for [`Char2DArray::wf`]
/// and keeps it.
pub struct Char2DArray {
    /// The rows, top to bottom; each row holds its cells left to right.
    pub buffer: Vec<Vec<char>>,
    height: usize,
    width: usize,
}

impl View for Char2DArray {
    type V = Seq<Seq<char>>;

    /// The rows of the buffer, each as the sequence of its cells.
    closed spec fn view(&self) -> Seq<Seq<char>> {
        rows_of(self.buffer@)
    }
}

/// The rows of a nested vector, each as the sequence of its cells.
pub open spec fn rows_of(rows: Seq<Vec<char>>) -> Seq<Seq<char>> {
    Seq::new(rows.len(), |y: int| rows[y]@)
}

/// Every row has `width` cells.
pub open spec fn rectangular(rows: Seq<Seq<char>>, width: nat) -> bool {
    forall|y: int| 0 <= y < rows.len() ==> (#[trigger] rows[y]).len() == width
}

/// The grid of `height` rows of `width` cells in which every cell holds `ch`.
pub open spec fn filled(width: nat, height: nat, ch: char) -> Seq<Seq<char>> {
    Seq::new(height, |y: int| Seq::new(width, |x: int| ch))
}

impl Char2DArray {
    /// The number of cells in a row, as recorded at construction.
    pub closed spec fn spec_width(&self) -> usize {
        self.width
    }

    /// The number of rows, as recorded at construction.
    pub closed spec fn spec_height(&self) -> usize {
        self.height
    }

    /// The buffer has `height` rows and every row has `width` cells.
    pub open spec fn wf(&self) -> bool {
        &&& self@.len() == self.height()
        &&& rectangular(self@, self.width() as nat)
    }

    /// A grid of the given size with a space in every cell. Either dimension
    /// may be zero.
    pub fn new(width: usize, height: usize) -> (grid: Char2DArray)
        ensures
            grid.wf(),
            grid.width() == width,
            grid.height() == height,
            grid@ == filled(width as nat, height as nat, ' '),
    {
        let mut buffer: Vec<Vec<char>> = Vec::with_capacity(height);
        let mut y: usize = 0;
        while y < height
            invariant
                y <= height,
                buffer@.len() == y,
                rows_of(buffer@) == filled(width as nat, y as nat, ' '),
            decreases height - y,
        {
            let mut line: Vec<char> = Vec::with_capacity(width);
            let mut x: usize = 0;
            while x < width
                invariant
                    x <= width,
                    line@ == Seq::new(x as nat, |i: int| ' '),
                decreases width - x,
            {
                line.push(' ');
                x += 1;
            }
            let ghost above = buffer@;
            buffer.push(line);
            y += 1;
            assert forall|i: int| 0 <= i < y implies rows_of(buffer@)[i] == filled(
                width as nat,
                y as nat,
                ' ',
            )[i] by {
                if i < y - 1 {
                    assert(rows_of(above)[i] == filled(width as nat, (y - 1) as nat, ' ')[i]);
                }
            }
        }
        Char2DArray { buffer, height, width }
    }

    /// The grid that holds the given rows. Its width is the length of the
    /// first row.
    pub fn from(src: Vec<Vec<char>>) -> (grid: Char2DArray)
        requires
            src@.len() > 0,
            rectangular(rows_of(src@), src@[0]@.len()),
        ensures
            grid.wf(),
            grid.width() == src@[0]@.len(),
            grid.height() == src@.len(),
            grid@ == rows_of(src@),
    {
        let width = src[0].len();
        let height = src.len();
        Char2DArray { buffer: src, height, width }
    }

    /// Writes `ch` into the cell in column `x` of row `y`.
    pub(crate) fn put(&mut self, x: usize, y: usize, ch: char)
        requires
            old(self).wf(),
            x < old(self).width(),
            y < old(self).height(),
        ensures
            final(self).wf(),
            final(self).width() == old(self).width(),
            final(self).height() == old(self).height(),
            final(self)@ == old(self)@.update(y as int, old(self)@[y as int].update(x as int, ch)),
    {
        assert(self@[y as int].len() == self.width);
        self.buffer[y][x] = ch;
        assert(self@ =~~= old(self)@.update(y as int, old(self)@[y as int].update(x as int, ch)));
    }

    /// Sets every cell of the row `line_index` to `ch`.
    pub fn overwrite_line(&mut self, ch: char, line_index: usize)
        requires
            old(self).wf(),
            line_index < old(self).height(),
        ensures
            final(self).wf(),
            final(self).width() == old(self).width(),
            final(self).height() == old(self).height(),
            final(self)@ == old(self)@.update(
                line_index as int,
                Seq::new(old(self).width() as nat, |x: int| ch),
            ),
    {
        let width = self.width;
        let mut x: usize = 0;
        while x < width
            invariant
                self.wf(),
                self.width == width,
                self.height == old(self).height,
                line_index < self.height,
                x <= width,
                self@.len() == old(self)@.len(),
                forall|row: int|
                    0 <= row < self.height && row != line_index ==> #[trigger] self@[row]
                        == old(self)@[row],
                forall|column: int|
                    0 <= column < x ==> #[trigger] self@[line_index as int][column] == ch,
            decreases width - x,
        {
            self.put(x, line_index, ch);
            x += 1;
        }
        assert(self@[line_index as int] =~= Seq::new(width as nat, |x: int| ch));
        assert(self@ =~= old(self)@.update(
            line_index as int,
            Seq::new(width as nat, |x: int| ch),
        ));
    }

    /// Sets the cell at `position` to `ch`. The position lies inside the grid.
    pub fn overwrite_char(&mut self, ch: char, position: CharPosition)
        requires
            old(self).wf(),
            0 <= position.x < old(self).width(),
            0 <= position.y < old(self).height(),
        ensures
            final(self).wf(),
            final(self).width() == old(self).width(),
            final(self).height() == old(self).height(),
            final(self)@ == old(self)@.update(
                position.y as int,
                old(self)@[position.y as int].update(position.x as int, ch),
            ),
    {
        self.put(position.x as usize, position.y as usize, ch);
    }

    /// Sets every cell to `ch`.
    pub fn overwrite_char_all(&mut self, ch: char)
        requires
            old(self).wf(),
        ensures
            final(self).wf(),
            final(self).width() == old(self).width(),
            final(self).height() == old(self).height(),
            final(self)@ == filled(old(self).width() as nat, old(self).height() as nat, ch),
    {
        let height = self.height;
        let mut y: usize = 0;
        while y < height
            invariant
                self.wf(),
                self.width == old(self).width,
                self.height == height,
                y <= height,
                forall|row: int|
                    0 <= row < y ==> #[trigger] self@[row] == Seq::new(
                        self.width as nat,
                        |x: int| ch,
                    ),
            decreases height - y,
        {
            self.overwrite_line(ch, y);
            y += 1;
        }
    }

    /// The number of rows.
    #[verifier::when_used_as_spec(spec_height)]
    pub fn height(&self) -> (height: usize)
        ensures
            height == self.spec_height(),
    {
        self.height
    }

    /// The number of cells in a row.
    #[verifier::when_used_as_spec(spec_width)]
    pub fn width(&self) -> (width: usize)
        ensures
            width == self.spec_width(),
    {
        self.width
    }
}

} // verus!
