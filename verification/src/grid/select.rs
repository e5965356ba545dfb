//! Overwriting the cells that a predicate selects.

use crate::grid::{rectangular, Char2DArray};
use rand::Rng;
use vstd::prelude::*;

verus! {

/// What is known of a cell that was `before` and is `after` once `f` has been
/// asked about it: it is `ch` where `f` said yes, and as before where `f`
/// said no.
pub open spec fn replaced_where<F: Fn(usize, usize, char) -> bool>(
    f: F,
    x: usize,
    y: usize,
    before: char,
    after: char,
    ch: char,
) -> bool {
    ||| call_ensures(f, (x, y, before), true) && after == ch
    ||| call_ensures(f, (x, y, before), false) && after == before
}

/// What is known of a cell that was `before` and is `after` once `f` has been
/// asked about it and `sample` has drawn among `chars`: it is the character
/// at an index that `sample` may return where `f` said yes, and as before
/// where `f` said no.
pub open spec fn sampled_where<F: Fn(usize, usize, char) -> bool, G: Fn(usize) -> usize>(
    f: F,
    sample: G,
    x: usize,
    y: usize,
    before: char,
    after: char,
    chars: Seq<char>,
) -> bool {
    ||| call_ensures(f, (x, y, before), true) && exists|index: usize|
        #[trigger] call_ensures(sample, (chars.len() as usize,), index) && index < chars.len()
            && after == chars[index as int]
    ||| call_ensures(f, (x, y, before), false) && after == before
}

/// What is known of a cell that was `before` and is `after` once `f` has been
/// asked about it and one of `chars` has been drawn: it is one of `chars`
/// where `f` said yes, and as before where `f` said no.
pub open spec fn drawn_where<F: Fn(usize, usize, char) -> bool>(
    f: F,
    x: usize,
    y: usize,
    before: char,
    after: char,
    chars: Seq<char>,
) -> bool {
    ||| call_ensures(f, (x, y, before), true) && chars.contains(after)
    ||| call_ensures(f, (x, y, before), false) && after == before
}

/// An index below `len`, drawn by `rand::thread_rng` with `Rng::gen_range`
/// from zero to `len`. Which index comes is not said, only that it is below
/// `len`; that is the crate's word and is not proved. The range is not
/// empty, as `gen_range` asks.
#[verifier::external_body]
fn random_index(len: usize) -> (index: usize)
    requires
        len > 0,
    ensures
        index < len,
{
    rand::thread_rng().gen_range(0, len)
}

impl Char2DArray {
    /// Sets to `ch` every cell for which `f` holds. `f` is given the cell's
    /// column, its row and the character that the cell held before the call.
    pub fn overwrite_fn<F: Fn(usize, usize, char) -> bool>(&mut self, ch: char, f: F)
        requires
            old(self).wf(),
            forall|x: usize, y: usize|
                x < old(self).width() && y < old(self).height() ==> call_requires(
                    f,
                    (x, y, #[trigger] old(self)@[y as int][x as int]),
                ),
        ensures
            final(self).wf(),
            final(self).width() == old(self).width(),
            final(self).height() == old(self).height(),
            forall|x: usize, y: usize|
                x < old(self).width() && y < old(self).height() ==> replaced_where(
                    f,
                    x,
                    y,
                    old(self)@[y as int][x as int],
                    #[trigger] final(self)@[y as int][x as int],
                    ch,
                ),
    {
        let ghost before = self@;
        let width = self.width;
        let height = self.height;
        let mut y: usize = 0;
        while y < height
            invariant
                self.wf(),
                self.width == width,
                self.height == height,
                before.len() == height,
                rectangular(before, width as nat),
                y <= height,
                forall|x: usize, y: usize|
                    x < width && y < height ==> call_requires(
                        f,
                        (x, y, #[trigger] before[y as int][x as int]),
                    ),
                forall|row: int| y <= row < height ==> #[trigger] self@[row] == before[row],
                forall|column: usize, row: usize|
                    column < width && row < y ==> replaced_where(
                        f,
                        column,
                        row,
                        before[row as int][column as int],
                        #[trigger] self@[row as int][column as int],
                        ch,
                    ),
            decreases height - y,
        {
            let mut x: usize = 0;
            while x < width
                invariant
                    self.wf(),
                    self.width == width,
                    self.height == height,
                    before.len() == height,
                    rectangular(before, width as nat),
                    y < height,
                    x <= width,
                    forall|x: usize, y: usize|
                        x < width && y < height ==> call_requires(
                            f,
                            (x, y, #[trigger] before[y as int][x as int]),
                        ),
                    forall|row: int| y < row < height ==> #[trigger] self@[row] == before[row],
                    forall|column: int|
                        x <= column < width ==> #[trigger] self@[y as int][column]
                            == before[y as int][column],
                    forall|column: usize, row: usize|
                        column < width && (row < y || (row == y && column < x))
                            ==> replaced_where(
                            f,
                            column,
                            row,
                            before[row as int][column as int],
                            #[trigger] self@[row as int][column as int],
                            ch,
                        ),
                decreases width - x,
            {
                assert(self@[y as int].len() == width);
                let current = self.buffer[y][x];
                if f(x, y, current) {
                    self.put(x, y, ch);
                }
                x += 1;
            }
            y += 1;
        }
    }

    /// Like [`Char2DArray::overwrite_fn`], but each cell for which `f` holds
    /// receives the character of `chars` at the index that `sample` returns
    /// for the length of `chars`. `sample` is asked once for each such cell.
    pub fn overwrite_sampled_fn<F: Fn(usize, usize, char) -> bool, G: Fn(usize) -> usize>(
        &mut self,
        chars: &Vec<char>,
        f: F,
        sample: G,
    )
        requires
            old(self).wf(),
            chars@.len() > 0,
            forall|x: usize, y: usize|
                x < old(self).width() && y < old(self).height() ==> call_requires(
                    f,
                    (x, y, #[trigger] old(self)@[y as int][x as int]),
                ),
            call_requires(sample, (chars.len(),)),
            forall|index: usize|
                #[trigger] call_ensures(sample, (chars.len(),), index) ==> index < chars.len(),
        ensures
            final(self).wf(),
            final(self).width() == old(self).width(),
            final(self).height() == old(self).height(),
            forall|x: usize, y: usize|
                x < old(self).width() && y < old(self).height() ==> sampled_where(
                    f,
                    sample,
                    x,
                    y,
                    old(self)@[y as int][x as int],
                    #[trigger] final(self)@[y as int][x as int],
                    chars@,
                ),
    {
        let ghost before = self@;
        let width = self.width;
        let height = self.height;
        let len = chars.len();
        let mut y: usize = 0;
        while y < height
            invariant
                self.wf(),
                self.width == width,
                self.height == height,
                before.len() == height,
                rectangular(before, width as nat),
                y <= height,
                len == chars@.len(),
                len > 0,
                forall|x: usize, y: usize|
                    x < width && y < height ==> call_requires(
                        f,
                        (x, y, #[trigger] before[y as int][x as int]),
                    ),
                call_requires(sample, (len,)),
                forall|index: usize| #[trigger] call_ensures(sample, (len,), index) ==> index < len,
                forall|row: int| y <= row < height ==> #[trigger] self@[row] == before[row],
                forall|column: usize, row: usize|
                    column < width && row < y ==> sampled_where(
                        f,
                        sample,
                        column,
                        row,
                        before[row as int][column as int],
                        #[trigger] self@[row as int][column as int],
                        chars@,
                    ),
            decreases height - y,
        {
            let mut x: usize = 0;
            while x < width
                invariant
                    self.wf(),
                    self.width == width,
                    self.height == height,
                    before.len() == height,
                    rectangular(before, width as nat),
                    y < height,
                    x <= width,
                    len == chars@.len(),
                    len > 0,
                    forall|x: usize, y: usize|
                        x < width && y < height ==> call_requires(
                            f,
                            (x, y, #[trigger] before[y as int][x as int]),
                        ),
                    call_requires(sample, (len,)),
                    forall|index: usize|
                        #[trigger] call_ensures(sample, (len,), index) ==> index < len,
                    forall|row: int| y < row < height ==> #[trigger] self@[row] == before[row],
                    forall|column: int|
                        x <= column < width ==> #[trigger] self@[y as int][column]
                            == before[y as int][column],
                    forall|column: usize, row: usize|
                        column < width && (row < y || (row == y && column < x))
                            ==> sampled_where(
                            f,
                            sample,
                            column,
                            row,
                            before[row as int][column as int],
                            #[trigger] self@[row as int][column as int],
                            chars@,
                        ),
                decreases width - x,
            {
                assert(self@[y as int].len() == width);
                let current = self.buffer[y][x];
                if f(x, y, current) {
                    let index = sample(len);
                    self.put(x, y, chars[index]);
                    assert(call_ensures(sample, (chars@.len() as usize,), index));
                }
                x += 1;
            }
            y += 1;
        }
    }

    /// Like [`Char2DArray::overwrite_fn`], but each cell for which `f` holds
    /// receives one of `chars`, drawn at random for that cell.
    pub fn overwrite_random_fn<F: Fn(usize, usize, char) -> bool>(&mut self, chars: Vec<char>, f: F)
        requires
            old(self).wf(),
            chars@.len() > 0,
            forall|x: usize, y: usize|
                x < old(self).width() && y < old(self).height() ==> call_requires(
                    f,
                    (x, y, #[trigger] old(self)@[y as int][x as int]),
                ),
        ensures
            final(self).wf(),
            final(self).width() == old(self).width(),
            final(self).height() == old(self).height(),
            forall|x: usize, y: usize|
                x < old(self).width() && y < old(self).height() ==> drawn_where(
                    f,
                    x,
                    y,
                    old(self)@[y as int][x as int],
                    #[trigger] final(self)@[y as int][x as int],
                    chars@,
                ),
    {
        let sample = |len: usize| -> (index: usize)
            requires
                len > 0,
            ensures
                index < len,
            { random_index(len) };
        self.overwrite_sampled_fn(&chars, f, sample);
        assert forall|x: usize, y: usize| x < self.width && y < self.height implies drawn_where(
            f,
            x,
            y,
            old(self)@[y as int][x as int],
            #[trigger] self@[y as int][x as int],
            chars@,
        ) by {
            assert(sampled_where(
                f,
                sample,
                x,
                y,
                old(self)@[y as int][x as int],
                self@[y as int][x as int],
                chars@,
            ));
        }
    }
}

} // verus!
