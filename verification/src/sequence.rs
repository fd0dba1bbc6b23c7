//! The sequence splitter: one string to the segments between its commas.

use vstd::prelude::*;

verus! {

/// The character that separates the elements of a sequence value.
pub const SEPARATOR: char = ',';

/// The mathematical value of a list of strings.
pub open spec fn strings_view(strings: Seq<String>) -> Seq<Seq<char>> {
    strings.map_values(|s: String| s@)
}

/// The segments of `s` between the occurrences of `sep`, in order. A text
/// without `sep`, the empty text included, is a single segment. Adjacent
/// separators enclose empty segments. Nothing escapes a separator.
pub open spec fn split_on(s: Seq<char>, sep: char) -> Seq<Seq<char>>
    decreases s.len(),
{
    if s.len() == 0 {
        seq![Seq::empty()]
    } else {
        let before = split_on(s.drop_last(), sep);
        if s.last() == sep {
            before.push(Seq::empty())
        } else {
            before.update(before.len() - 1, before.last().push(s.last()))
        }
    }
}

/// The segments put together again, with `sep` between neighbours.
pub open spec fn join_with(segments: Seq<Seq<char>>, sep: char) -> Seq<char>
    decreases segments.len(),
{
    if segments.len() == 0 {
        Seq::empty()
    } else if segments.len() == 1 {
        segments[0]
    } else {
        join_with(segments.drop_last(), sep).push(sep) + segments.last()
    }
}

/// Calls `str::split` with a character pattern and owns each piece.
/// Trusted: the pieces are the segments of `s` between the occurrences of
/// `sep`, in order; a text without `sep` is a single piece.
#[verifier::external_body]
fn split_str(s: &str, sep: char) -> (pieces: Vec<String>)
    ensures
        strings_view(pieces@) == split_on(s@, sep),
{
    let mut pieces: Vec<String> = Vec::new();
    for piece in s.split(sep) {
        pieces.push(piece.to_owned());
    }
    pieces
}

/// Splits the value of a sequence field into its elements, at the commas.
/// The empty text yields one empty element, not none.
pub fn split(raw: &str) -> (segments: Vec<String>)
    ensures
        strings_view(segments@) == split_on(raw@, SEPARATOR),
        segments@.len() >= 1,
{
    proof {
        lemma_split_has_segments(raw@, SEPARATOR);
    }
    split_str(raw, SEPARATOR)
}

/// Splitting always yields at least one segment.
pub proof fn lemma_split_has_segments(s: Seq<char>, sep: char)
    ensures
        split_on(s, sep).len() >= 1,
    decreases s.len(),
{
    if s.len() > 0 {
        lemma_split_has_segments(s.drop_last(), sep);
    }
}

/// The empty text splits into a single empty segment.
pub proof fn lemma_split_empty(sep: char)
    ensures
        split_on(Seq::empty(), sep) == seq![Seq::<char>::empty()],
{
}

/// No segment holds the separator.
pub proof fn lemma_split_segments_hold_no_separator(s: Seq<char>, sep: char)
    ensures
        forall|i: int, j: int|
            0 <= i < split_on(s, sep).len() && 0 <= j < split_on(s, sep)[i].len() ==> split_on(
                s,
                sep,
            )[i][j] != sep,
    decreases s.len(),
{
    if s.len() > 0 {
        lemma_split_segments_hold_no_separator(s.drop_last(), sep);
        lemma_split_has_segments(s.drop_last(), sep);
    }
}

/// Joining the segments with the separator gives the text back.
pub proof fn lemma_split_joins_back(s: Seq<char>, sep: char)
    ensures
        join_with(split_on(s, sep), sep) == s,
    decreases s.len(),
{
    if s.len() > 0 {
        let init = s.drop_last();
        let before = split_on(init, sep);
        let after = split_on(s, sep);
        lemma_split_joins_back(init, sep);
        lemma_split_has_segments(init, sep);
        if s.last() == sep {
            assert(after.drop_last() =~= before);
            assert(join_with(after, sep) =~= init.push(sep) + Seq::empty());
            assert(init.push(sep) =~= s);
        } else {
            let grown = before.last().push(s.last());
            if before.len() == 1 {
                assert(join_with(before, sep) == before[0]);
                assert(after[0] == grown);
                assert(grown =~= s);
            } else {
                assert(after.drop_last() =~= before.drop_last());
                assert(after.last() == grown);
                let head = join_with(before.drop_last(), sep).push(sep);
                assert(join_with(after, sep) == head + grown);
                assert(head + grown =~= (head + before.last()).push(s.last()));
                assert(init.push(s.last()) =~= s);
            }
        }
    }
}

/// A text without the separator is its own single segment.
pub proof fn lemma_split_without_separator(s: Seq<char>, sep: char)
    requires
        forall|i: int| 0 <= i < s.len() ==> s[i] != sep,
    ensures
        split_on(s, sep) == seq![s],
    decreases s.len(),
{
    if s.len() > 0 {
        lemma_split_without_separator(s.drop_last(), sep);
        assert(split_on(s, sep) =~= seq![s.drop_last().push(s.last())]);
        assert(s.drop_last().push(s.last()) =~= s);
    } else {
        assert(s =~= Seq::empty());
    }
}

} // verus!
