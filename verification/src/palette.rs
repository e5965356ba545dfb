//! The density palette: the characters of a set, ordered by how much ink each
//! of them puts on the page.

use crate::glyph::{has_ink, inked, Glyph};
use vstd::arithmetic::div_mod::{lemma_fundamental_div_mod, lemma_fundamental_div_mod_converse};
use vstd::prelude::*;

verus! {

/// The characters that a picture is drawn with unless the caller names others.
pub const ASCIIS: &'static str =
    "ABCDEFGHIJKLMNOPQRSTUVWXYZabcdefghijklmnopqrstuvwxyz1234567890!\"#$%&'()-^\\=~|@[`{;:]+*},./_<>?_     ";

/// The number of entries of a palette that every 8-bit luminance can index.
pub const PALETTE_SIZE: usize = 256;

/// The first `size` characters of `base` repeated without end.
pub open spec fn cycled(base: Seq<char>, size: nat) -> Seq<char> {
    Seq::new(size, |i: int| base[i % (base.len() as int)])
}

/// Whole repetitions of `base` followed by a prefix of it are `base` repeated
/// and cut off.
proof fn lemma_cycled_append(base: Seq<char>, repetitions: nat, rest: nat)
    requires
        base.len() > 0,
        rest <= base.len(),
    ensures
        cycled(base, repetitions * base.len()) + base.subrange(0, rest as int) == cycled(
            base,
            repetitions * base.len() + rest,
        ),
{
    let whole = repetitions * base.len();
    let joined = cycled(base, whole) + base.subrange(0, rest as int);
    assert forall|i: int| 0 <= i < whole + rest implies joined[i] == base[i % (base.len() as int)]
    by {
        if i >= whole {
            lemma_fundamental_div_mod_converse(
                i,
                base.len() as int,
                repetitions as int,
                i - whole,
            );
        }
    }
}

/// Pads `ascii_list` to `target_size` characters: the list is repeated whole
/// as often as it fits, and a prefix of it fills what is left.
pub fn pad(ascii_list: &str, target_size: usize) -> (padded: String)
    requires
        ascii_list@.len() > 0,
        target_size >= ascii_list@.len(),
    ensures
        padded@ == cycled(ascii_list@, target_size as nat),
{
    let list_size = ascii_list.unicode_len();
    let diff = target_size - list_size;
    let n = diff / list_size;
    let m = diff % list_size;
    let mut padded_list = String::from_str(ascii_list);
    proof {
        lemma_cycled_append(ascii_list@, 0, list_size as nat);
    }
    let mut k: usize = 0;
    while k < n
        invariant
            k <= n,
            list_size == ascii_list@.len(),
            list_size > 0,
            padded_list@ == cycled(ascii_list@, ((k + 1) * list_size) as nat),
        decreases n - k,
    {
        padded_list.append(ascii_list);
        proof {
            lemma_cycled_append(ascii_list@, (k + 1) as nat, list_size as nat);
            assert((k + 1) * list_size + list_size == (k + 1 + 1) * list_size) by (nonlinear_arith);
        }
        k += 1;
    }
    padded_list.append(ascii_list.substring_char(0, m));
    proof {
        lemma_cycled_append(ascii_list@, (n + 1) as nat, m as nat);
        lemma_fundamental_div_mod(diff as int, list_size as int);
        assert((n + 1) * list_size + m == target_size) by (nonlinear_arith)
            requires
                diff == list_size * n + m,
                target_size == diff + list_size,
        ;
    }
    padded_list
}

/// The characters of the palette for a picture: the caller's set, or
/// [`ASCIIS`] where none is given, padded to [`PALETTE_SIZE`] characters.
pub fn palette_chars(characters: Option<&str>) -> (padded: String)
    requires
        characters matches Some(set) ==> 0 < set@.len() <= PALETTE_SIZE,
    ensures
        padded@ == cycled(
            match characters {
                Some(set) => set@,
                None => ASCIIS@,
            },
            PALETTE_SIZE as nat,
        ),
{
    match characters {
        Some(set) => pad(set, PALETTE_SIZE),
        None => {
            proof {
                reveal_strlit(
                    "ABCDEFGHIJKLMNOPQRSTUVWXYZabcdefghijklmnopqrstuvwxyz1234567890!\"#$%&'()-^\\=~|@[`{;:]+*},./_<>?_     ",
                );
            }
            pad(ASCIIS, PALETTE_SIZE)
        },
    }
}

/// The counts never rise from one entry to the next.
pub open spec fn descending(entries: Seq<(u32, char)>) -> bool {
    forall|i: int, j: int| 0 <= i <= j < entries.len() ==> entries[i].0 >= entries[j].0
}

/// Where an entry with the given count goes in a descending sequence: behind
/// the last entry whose count is at least as large.
pub open spec fn density_rank(sorted: Seq<(u32, char)>, count: u32) -> nat
    decreases sorted.len(),
{
    if sorted.len() == 0 || sorted.last().0 >= count {
        sorted.len()
    } else {
        density_rank(sorted.drop_last(), count)
    }
}

/// The entries in the order of the palette: by count, the largest first, and
/// entries of equal count in the order in which they came.
pub open spec fn by_density(entries: Seq<(u32, char)>) -> Seq<(u32, char)>
    decreases entries.len(),
{
    if entries.len() == 0 {
        entries
    } else {
        let sorted = by_density(entries.drop_last());
        sorted.insert(density_rank(sorted, entries.last().0) as int, entries.last())
    }
}

/// One entry for each glyph of a character: the glyph's ink and the character.
pub open spec fn glyph_entries(ch: char, glyphs: Seq<Glyph>) -> Seq<(u32, char)> {
    Seq::new(glyphs.len(), |i: int| (glyphs[i].ink() as u32, ch))
}

/// The entries of all characters, in the order of the characters. A character
/// without glyphs has no entry.
pub open spec fn density_entries(rendered: Seq<(char, Vec<Glyph>)>) -> Seq<(u32, char)>
    decreases rendered.len(),
{
    if rendered.len() == 0 {
        Seq::empty()
    } else {
        density_entries(rendered.drop_last()) + glyph_entries(
            rendered.last().0,
            rendered.last().1@,
        )
    }
}

/// What `density_rank` names: every entry from there on has a smaller count,
/// and the entry before has not.
pub proof fn lemma_density_rank(sorted: Seq<(u32, char)>, count: u32)
    ensures
        density_rank(sorted, count) <= sorted.len(),
        forall|j: int| density_rank(sorted, count) <= j < sorted.len() ==> sorted[j].0 < count,
        density_rank(sorted, count) > 0 ==> sorted[density_rank(sorted, count) - 1].0 >= count,
    decreases sorted.len(),
{
    if !(sorted.len() == 0 || sorted.last().0 >= count) {
        let rest = sorted.drop_last();
        lemma_density_rank(rest, count);
        assert forall|j: int| density_rank(sorted, count) <= j < sorted.len() implies sorted[j].0
            < count by {
            if j < rest.len() {
                assert(sorted[j] == rest[j]);
            }
        }
    }
}

/// A position with the two properties of `lemma_density_rank` is the rank.
proof fn lemma_density_rank_found(sorted: Seq<(u32, char)>, count: u32, at: int)
    requires
        0 <= at <= sorted.len(),
        forall|j: int| at <= j < sorted.len() ==> sorted[j].0 < count,
        at > 0 ==> sorted[at - 1].0 >= count,
    ensures
        density_rank(sorted, count) == at,
    decreases sorted.len(),
{
    if at < sorted.len() {
        lemma_density_rank_found(sorted.drop_last(), count, at);
    }
}

/// The palette order is descending: no entry has a larger count than an entry
/// before it.
pub proof fn lemma_by_density_descending(entries: Seq<(u32, char)>)
    ensures
        descending(by_density(entries)),
    decreases entries.len(),
{
    if entries.len() > 0 {
        let sorted = by_density(entries.drop_last());
        let entry = entries.last();
        let at = density_rank(sorted, entry.0) as int;
        lemma_by_density_descending(entries.drop_last());
        lemma_density_rank(sorted, entry.0);
        let ordered = sorted.insert(at, entry);
        assert forall|i: int, j: int| 0 <= i <= j < ordered.len() implies ordered[i].0
            >= ordered[j].0 by {
            if i < at {
                assert(sorted[i].0 >= sorted[at - 1].0);
            }
        }
    }
}

/// The palette order holds the same entries, each as often as it came.
pub proof fn lemma_by_density_permutes(entries: Seq<(u32, char)>)
    ensures
        by_density(entries).to_multiset() == entries.to_multiset(),
        by_density(entries).len() == entries.len(),
    decreases entries.len(),
{
    if entries.len() > 0 {
        let rest = entries.drop_last();
        let sorted = by_density(rest);
        lemma_by_density_permutes(rest);
        lemma_density_rank(sorted, entries.last().0);
        vstd::seq_lib::to_multiset_insert(
            sorted,
            density_rank(sorted, entries.last().0) as int,
            entries.last(),
        );
        vstd::seq_lib::to_multiset_build(rest, entries.last());
        assert(rest.push(entries.last()) =~= entries);
    }
}

/// Every entry is found in the palette order.
pub proof fn lemma_by_density_holds(entries: Seq<(u32, char)>, k: int)
    requires
        0 <= k < entries.len(),
    ensures
        by_density(entries).contains(entries[k]),
{
    lemma_by_density_permutes(entries);
    vstd::seq_lib::to_multiset_contains(entries, entries[k]);
    vstd::seq_lib::to_multiset_contains(by_density(entries), entries[k]);
    assert(entries.contains(entries[k]));
}

/// Whether an entry has the given count.
pub open spec fn has_count(count: u32) -> spec_fn((u32, char)) -> bool {
    |entry: (u32, char)| entry.0 == count
}

/// The entries that have the given count, in their order.
pub open spec fn of_count(entries: Seq<(u32, char)>, count: u32) -> Seq<(u32, char)> {
    entries.filter(has_count(count))
}

/// The palette order is stable: the entries of any one count stand in the
/// order in which they came.
pub proof fn lemma_by_density_stable(entries: Seq<(u32, char)>, count: u32)
    ensures
        of_count(by_density(entries), count) == of_count(entries, count),
    decreases entries.len(),
{
    let counted = has_count(count);
    if entries.len() > 0 {
        let rest = entries.drop_last();
        let entry = entries.last();
        let sorted = by_density(rest);
        let at = density_rank(sorted, entry.0) as int;
        lemma_by_density_stable(rest, count);
        lemma_density_rank(sorted, entry.0);
        let front = sorted.take(at);
        let back = sorted.skip(at);
        assert(sorted =~= front + back);
        Seq::filter_distributes_over_add(front, back, counted);
        Seq::filter_distributes_over_add(front.push(entry), back, counted);
        front.lemma_filter_push(entry, counted);
        rest.lemma_filter_push(entry, counted);
        assert(rest.push(entry) =~= entries);
        if entry.0 == count {
            assert(back.all(|e: (u32, char)| !counted(e))) by {
                assert forall|j: int| 0 <= j < back.len() implies !counted(back[j]) by {
                    assert(back[j] == sorted[at + j]);
                }
            }
            back.lemma_all_neg_filter_empty(counted);
            assert(front.filter(counted).push(entry) + back.filter(counted)
                =~= front.filter(counted).push(entry));
        }
    }
}

/// An entry of a sequence is among the entries of its count, so a sequence
/// that has an entry of some count shares it with every sequence that has
/// the same entries of that count.
proof fn lemma_shared_entry(a: Seq<(u32, char)>, b: Seq<(u32, char)>, i: int)
    requires
        0 <= i < a.len(),
        of_count(a, a[i].0) == of_count(b, a[i].0),
    ensures
        b.contains(a[i]),
{
    a.lemma_filter_contains(has_count(a[i].0), i);
    b.lemma_filter_contains_rev(has_count(a[i].0), a[i]);
}

/// Descending and stable is all there is to the palette order: two
/// descending sequences with the same entries of each count, in the same
/// order, are one sequence.
pub proof fn lemma_descending_stable_unique(a: Seq<(u32, char)>, b: Seq<(u32, char)>)
    requires
        descending(a),
        descending(b),
        forall|count: u32| of_count(a, count) == of_count(b, count),
    ensures
        a == b,
    decreases a.len(),
{
    if a.len() == 0 {
        if b.len() > 0 {
            lemma_shared_entry(b, a, 0);
        }
    } else {
        let x = a.last();
        lemma_shared_entry(a, b, a.len() - 1);
        let z = b.last();
        lemma_shared_entry(b, a, b.len() - 1);
        let i = choose|i: int| 0 <= i < a.len() && a[i] == z;
        let j = choose|j: int| 0 <= j < b.len() && b[j] == x;
        assert(z.0 >= x.0 && x.0 >= z.0) by {
            assert(a[i].0 >= a[a.len() - 1].0);
            assert(b[j].0 >= b[b.len() - 1].0);
        }
        let front_a = a.drop_last();
        let front_b = b.drop_last();
        assert(front_a.push(x) =~= a);
        assert(front_b.push(z) =~= b);
        assert forall|count: u32| of_count(front_a, count) == of_count(front_b, count) by {
            front_a.lemma_filter_push(x, has_count(count));
            front_b.lemma_filter_push(z, has_count(count));
            if x.0 == count {
                assert(of_count(front_a, count) =~= of_count(a, count).drop_last());
                assert(of_count(front_b, count) =~= of_count(b, count).drop_last());
            }
        }
        if x != z {
            front_a.lemma_filter_push(x, has_count(x.0));
            front_b.lemma_filter_push(z, has_count(x.0));
            assert(of_count(a, x.0).last() == x);
            assert(of_count(b, x.0).last() == z);
        }
        lemma_descending_stable_unique(front_a, front_b);
    }
}

/// The number of pixels of the glyph with a coverage that is not zero.
fn glyph_ink(glyph: &Glyph) -> (count: u32)
    requires
        glyph.ink() <= u32::MAX,
    ensures
        count == glyph.ink(),
{
    match &glyph.bitmap {
        Some(bitmap) => {
            let mut count: u32 = 0;
            let mut k: usize = 0;
            proof {
                bitmap.coverage@.take(0).lemma_filter_len(has_ink());
            }
            while k < bitmap.coverage.len()
                invariant
                    k <= bitmap.coverage@.len(),
                    count == bitmap.coverage@.take(k as int).filter(has_ink()).len(),
                    bitmap.coverage@.filter(has_ink()).len() <= u32::MAX,
                decreases bitmap.coverage@.len() - k,
            {
                proof {
                    bitmap.coverage@.lemma_take_succ_push(k as int);
                    bitmap.coverage@.take(k as int).lemma_filter_len_push(
                        has_ink(),
                        bitmap.coverage@[k as int],
                    );
                    bitmap.coverage@.lemma_filter_take_len(has_ink(), k + 1);
                }
                if inked(bitmap.coverage[k]) {
                    count += 1;
                }
                k += 1;
            }
            proof {
                bitmap.coverage@.lemma_take_len();
            }
            count
        },
        None => 0,
    }
}

/// The entries in the order of the palette.
fn sort_by_density(entries: &Vec<(u32, char)>) -> (sorted: Vec<(u32, char)>)
    ensures
        sorted@ == by_density(entries@),
{
    let mut sorted: Vec<(u32, char)> = Vec::with_capacity(entries.len());
    let mut i: usize = 0;
    while i < entries.len()
        invariant
            i <= entries@.len(),
            sorted@ == by_density(entries@.take(i as int)),
        decreases entries@.len() - i,
    {
        let entry = entries[i];
        let mut at: usize = sorted.len();
        while at > 0 && sorted[at - 1].0 < entry.0
            invariant
                at <= sorted@.len(),
                forall|j: int| at <= j < sorted@.len() ==> sorted@[j].0 < entry.0,
            decreases at,
        {
            at -= 1;
        }
        proof {
            lemma_density_rank_found(sorted@, entry.0, at as int);
            assert(entries@.take(i + 1).drop_last() =~= entries@.take(i as int));
        }
        sorted.insert(at, entry);
        i += 1;
    }
    proof {
        entries@.lemma_take_len();
    }
    sorted
}

/// Builds the density palette of a character set.
///
/// `rendered` holds each character of the set with the glyphs that the font
/// engine rendered for it at the calibration scale. The palette has one entry
/// for each glyph, the glyph's ink with the character, and is ordered by ink,
/// the largest first; entries of equal ink keep the order of the set.
pub fn ascii2density(rendered: &Vec<(char, Vec<Glyph>)>) -> (palette: Vec<(u32, char)>)
    requires
        forall|i: int, j: int|
            0 <= i < rendered@.len() && 0 <= j < rendered@[i].1@.len() ==> (
            #[trigger] rendered@[i].1@[j]).ink() <= u32::MAX,
    ensures
        palette@ == by_density(density_entries(rendered@)),
        descending(palette@),
{
    let mut entries: Vec<(u32, char)> = Vec::new();
    let mut i: usize = 0;
    while i < rendered.len()
        invariant
            i <= rendered@.len(),
            entries@ == density_entries(rendered@.take(i as int)),
            forall|i: int, j: int|
                0 <= i < rendered@.len() && 0 <= j < rendered@[i].1@.len() ==> (
                #[trigger] rendered@[i].1@[j]).ink() <= u32::MAX,
        decreases rendered@.len() - i,
    {
        let ch = rendered[i].0;
        let glyphs = &rendered[i].1;
        let ghost before = entries@;
        let mut j: usize = 0;
        while j < glyphs.len()
            invariant
                j <= glyphs@.len(),
                i < rendered@.len(),
                glyphs@ == rendered@[i as int].1@,
                entries@ == before + glyph_entries(ch, glyphs@).take(j as int),
                forall|i: int, j: int|
                    0 <= i < rendered@.len() && 0 <= j < rendered@[i].1@.len() ==> (
                    #[trigger] rendered@[i].1@[j]).ink() <= u32::MAX,
            decreases glyphs@.len() - j,
        {
            let count = glyph_ink(&glyphs[j]);
            entries.push((count, ch));
            j += 1;
        }
        proof {
            glyph_entries(ch, glyphs@).lemma_take_len();
            assert(rendered@.take(i + 1).drop_last() =~= rendered@.take(i as int));
        }
        i += 1;
    }
    proof {
        rendered@.lemma_take_len();
        lemma_by_density_descending(entries@);
    }
    sort_by_density(&entries)
}

} // verus!
