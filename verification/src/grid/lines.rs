//! Reading a grid out as lines of text.

use crate::grid::{rectangular, rows_of, Char2DArray};
use vstd::prelude::*;

verus! {

/// `String::push` of std: the character is appended to the string. This is
/// std's documentation and is not proved.
pub assume_specification[ String::push ](s: &mut String, ch: char)
    ensures
        final(s)@ == old(s)@.push(ch),
;

/// The characters of each string.
pub open spec fn texts(lines: Seq<String>) -> Seq<Seq<char>> {
    Seq::new(lines.len(), |y: int| lines[y]@)
}

/// The text that holds the rows as lines: every row is followed by a line
/// feed, the last one too.
pub open spec fn saved_text(rows: Seq<Seq<char>>) -> Seq<char> {
    rows.map_values(|row: Seq<char>| row.push('\n')).flatten()
}

/// The characters of a text before its first line feed.
pub open spec fn first_line(text: Seq<char>) -> Seq<char>
    decreases text.len(),
{
    if text.len() == 0 || text.first() == '\n' {
        Seq::empty()
    } else {
        seq![text.first()] + first_line(text.drop_first())
    }
}

/// The lines of a text, each without the line feed that ends it. What
/// follows the last line feed is no line.
pub open spec fn text_lines(text: Seq<char>) -> Seq<Seq<char>>
    decreases text.len(),
{
    let line = first_line(text);
    if line.len() >= text.len() {
        Seq::empty()
    } else {
        seq![line] + text_lines(text.skip(line.len() as int + 1))
    }
}

/// No cell holds a line feed.
pub open spec fn without_line_feed(rows: Seq<Seq<char>>) -> bool {
    forall|y: int, x: int| 0 <= y < rows.len() && 0 <= x < rows[y].len() ==> rows[y][x] != '\n'
}

/// A row without a line feed, followed by a line feed and more text, is the
/// first line of that text.
proof fn lemma_first_line(row: Seq<char>, rest: Seq<char>)
    requires
        forall|x: int| 0 <= x < row.len() ==> row[x] != '\n',
    ensures
        first_line(row.push('\n') + rest) == row,
    decreases row.len(),
{
    let text = row.push('\n') + rest;
    if row.len() > 0 {
        assert(text.drop_first() =~= row.drop_first().push('\n') + rest);
        lemma_first_line(row.drop_first(), rest);
    }
}

/// Reading the saved text back line by line gives the rows again, as long as
/// no cell holds a line feed.
pub proof fn lemma_saved_text_round_trip(rows: Seq<Seq<char>>)
    requires
        without_line_feed(rows),
    ensures
        text_lines(saved_text(rows)) == rows,
    decreases rows.len(),
{
    let ended = rows.map_values(|row: Seq<char>| row.push('\n'));
    if rows.len() > 0 {
        let row = rows.first();
        let rest = rows.drop_first();
        assert(ended.drop_first() =~= rest.map_values(|row: Seq<char>| row.push('\n')));
        lemma_first_line(row, saved_text(rest));
        assert(saved_text(rows).skip(row.len() as int + 1) =~= saved_text(rest));
        assert forall|y: int, x: int|
            0 <= y < rest.len() && 0 <= x < rest[y].len() implies rest[y][x] != '\n' by {
            assert(rest[y] == rows[y + 1]);
        }
        lemma_saved_text_round_trip(rest);
    }
}

/// Reading each line of the grid back as a row of characters gives rows that
/// [`Char2DArray::from`] accepts and that are the buffer again.
pub proof fn lemma_lines_round_trip(grid: Char2DArray, lines: Seq<String>, rows: Seq<Vec<char>>)
    requires
        grid.wf(),
        grid.height() > 0,
        texts(lines) == grid@,
        rows_of(rows) == texts(lines),
    ensures
        rows.len() == grid.height(),
        rows[0]@.len() == grid.width(),
        rectangular(rows_of(rows), rows[0]@.len()),
        rows_of(rows) == grid@,
{
    assert(rows_of(rows)[0] == rows[0]@);
}

impl Char2DArray {
    /// The rows as strings, one for each row, top to bottom.
    pub fn to_lines(&self) -> (lines: Vec<String>)
        ensures
            texts(lines@) == self@,
    {
        let mut lines: Vec<String> = Vec::new();
        let mut y: usize = 0;
        while y < self.buffer.len()
            invariant
                y <= self.buffer@.len(),
                lines@.len() == y,
                forall|row: int| 0 <= row < y ==> (#[trigger] lines@[row])@ == self.buffer@[row]@,
            decreases self.buffer@.len() - y,
        {
            let chars = &self.buffer[y];
            let mut line = String::new();
            let mut x: usize = 0;
            while x < chars.len()
                invariant
                    x <= chars@.len(),
                    line@ == chars@.take(x as int),
                decreases chars@.len() - x,
            {
                line.push(chars[x]);
                x += 1;
            }
            lines.push(line);
            y += 1;
        }
        lines
    }

    /// The text of the grid as it is saved: every row followed by a line
    /// feed.
    pub fn to_text(&self) -> (text: String)
        ensures
            text@ == saved_text(self@),
    {
        let ghost ended = self@.map_values(|row: Seq<char>| row.push('\n'));
        let mut text = String::new();
        let mut y: usize = 0;
        while y < self.buffer.len()
            invariant
                y <= self.buffer@.len(),
                ended == self@.map_values(|row: Seq<char>| row.push('\n')),
                text@ == ended.take(y as int).flatten(),
            decreases self.buffer@.len() - y,
        {
            let chars = &self.buffer[y];
            let ghost above = text@;
            let mut x: usize = 0;
            while x < chars.len()
                invariant
                    x <= chars@.len(),
                    text@ == above + chars@.take(x as int),
                decreases chars@.len() - x,
            {
                text.push(chars[x]);
                x += 1;
            }
            text.push('\n');
            proof {
                ended.take(y as int).lemma_flatten_push(ended[y as int]);
                assert(ended.take(y + 1) =~= ended.take(y as int).push(ended[y as int]));
            }
            y += 1;
        }
        assert(ended.take(y as int) =~= ended);
        text
    }
}

} // verus!
