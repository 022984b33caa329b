//! Pieces of a character sequence between separators: splitting, joining,
//! and walking over the non-empty pieces.

use vstd::prelude::*;

verus! {

/// The index of the first occurrence of `c` in `s`, or `s.len()` where `s`
/// does not hold `c`.
pub open spec fn find(s: Seq<char>, c: char) -> int
    decreases s.len(),
{
    if s.len() == 0 || s[0] == c {
        0
    } else {
        1 + find(s.skip(1), c)
    }
}

/// The pieces of `s` between the occurrences of `sep`, in order. There is
/// always at least one piece; a piece is empty where two separators touch or
/// one stands at either end.
pub open spec fn split(s: Seq<char>, sep: char) -> Seq<Seq<char>>
    decreases s.len(),
{
    let i = find(s, sep);
    if 0 <= i < s.len() {
        seq![s.take(i)] + split(s.skip(i + 1), sep)
    } else {
        seq![s]
    }
}

/// The predicate that holds of the sequences with at least one character.
pub open spec fn non_empty() -> spec_fn(Seq<char>) -> bool {
    |piece: Seq<char>| piece.len() > 0
}

/// The non-empty pieces of `s` between the occurrences of `sep`, in order.
pub open spec fn pieces(s: Seq<char>, sep: char) -> Seq<Seq<char>> {
    split(s, sep).filter(non_empty())
}

/// `parts` written one after the other with `sep` between neighbours.
pub open spec fn join(parts: Seq<Seq<char>>, sep: char) -> Seq<char>
    decreases parts.len(),
{
    if parts.len() == 0 {
        Seq::empty()
    } else if parts.len() == 1 {
        parts[0]
    } else {
        join(parts.drop_last(), sep) + seq![sep] + parts.last()
    }
}

/// `c` occurs nowhere in `s`.
pub open spec fn free_of(s: Seq<char>, c: char) -> bool {
    forall|j: int| 0 <= j < s.len() ==> s[j] != c
}

/// Every character of `s` is `c`.
pub open spec fn all_of(s: Seq<char>, c: char) -> bool {
    forall|j: int| 0 <= j < s.len() ==> s[j] == c
}

/// `find` stays within the sequence, stops at an occurrence of `c`, and
/// passes none on its way.
pub proof fn lemma_find(s: Seq<char>, c: char)
    ensures
        0 <= find(s, c) <= s.len(),
        find(s, c) < s.len() ==> s[find(s, c)] == c,
        forall|j: int| 0 <= j < find(s, c) ==> s[j] != c,
    decreases s.len(),
{
    if s.len() != 0 && s[0] != c {
        lemma_find(s.skip(1), c);
        assert forall|j: int| 0 <= j < find(s, c) implies s[j] != c by {
            if j > 0 {
                assert(s[j] == s.skip(1)[j - 1]);
            }
        }
    }
}

/// An index that no occurrence of `c` precedes, and that is either the end of
/// `s` or an occurrence of `c`, is the one `find` gives.
pub proof fn lemma_find_is(s: Seq<char>, c: char, i: int)
    requires
        0 <= i <= s.len(),
        forall|j: int| 0 <= j < i ==> s[j] != c,
        i < s.len() ==> s[i] == c,
    ensures
        find(s, c) == i,
{
    lemma_find(s, c);
}

/// A sequence without the separator is its own single piece.
pub proof fn lemma_split_whole(s: Seq<char>, sep: char)
    requires
        free_of(s, sep),
    ensures
        split(s, sep) == seq![s],
{
    lemma_find_is(s, sep, s.len() as int);
}

/// Splitting respects a separator between two parts, whatever the parts
/// hold.
pub proof fn lemma_split_concat(a: Seq<char>, b: Seq<char>, sep: char)
    ensures
        split(a + seq![sep] + b, sep) == split(a, sep) + split(b, sep),
    decreases a.len(),
{
    let s = a + seq![sep] + b;
    lemma_find(a, sep);
    let i = find(a, sep);
    lemma_find_is(s, sep, i);
    if i < a.len() {
        assert(s.take(i) == a.take(i));
        assert(s.skip(i + 1) == a.skip(i + 1) + seq![sep] + b);
        lemma_split_concat(a.skip(i + 1), b, sep);
    } else {
        assert(s.take(i) == a);
        assert(s.skip(i + 1) == b);
    }
}

/// The non-empty pieces on both sides of a separator, taken together, are
/// the non-empty pieces of the whole.
pub proof fn lemma_pieces_concat(a: Seq<char>, b: Seq<char>, sep: char)
    ensures
        pieces(a + seq![sep] + b, sep) == pieces(a, sep) + pieces(b, sep),
{
    lemma_split_concat(a, b, sep);
    Seq::filter_distributes_over_add(split(a, sep), split(b, sep), non_empty());
}

/// A sequence without the separator gives itself as the only piece, or no
/// piece where it is empty.
pub proof fn lemma_pieces_whole(s: Seq<char>, sep: char)
    requires
        free_of(s, sep),
    ensures
        pieces(s, sep) == if s.len() > 0 {
            seq![s]
        } else {
            Seq::<Seq<char>>::empty()
        },
{
    lemma_split_whole(s, sep);
    Seq::<Seq<char>>::empty().lemma_filter_push(s, non_empty());
    assert(Seq::<Seq<char>>::empty().filter(non_empty()) == Seq::<Seq<char>>::empty()) by {
        reveal(Seq::filter);
    }
}

/// A separator at the start adds no piece.
pub proof fn lemma_pieces_skip(s: Seq<char>, sep: char)
    requires
        s.len() > 0,
        s[0] == sep,
    ensures
        pieces(s, sep) == pieces(s.skip(1), sep),
{
    let nothing = Seq::<char>::empty();
    assert(s == nothing + seq![sep] + s.skip(1));
    lemma_pieces_concat(nothing, s.skip(1), sep);
    lemma_pieces_whole(nothing, sep);
}

/// Separators at the start add no piece.
pub proof fn lemma_pieces_skip_all(lead: Seq<char>, s: Seq<char>, sep: char)
    requires
        all_of(lead, sep),
    ensures
        pieces(lead + s, sep) == pieces(s, sep),
    decreases lead.len(),
{
    if lead.len() > 0 {
        lemma_pieces_skip(lead + s, sep);
        assert((lead + s).skip(1) == lead.skip(1) + s);
        lemma_pieces_skip_all(lead.skip(1), s, sep);
    }
}

/// A non-empty start without the separator, which ends the sequence or is
/// followed by the separator, is the first piece; the others are those of
/// what follows it.
pub proof fn lemma_pieces_first(s: Seq<char>, sep: char, i: int)
    requires
        0 < i <= s.len(),
        free_of(s.take(i), sep),
        i < s.len() ==> s[i] == sep,
    ensures
        pieces(s, sep) == seq![s.take(i)] + pieces(s.skip(i), sep),
{
    lemma_pieces_whole(s.take(i), sep);
    if i < s.len() {
        assert(s == s.take(i) + seq![sep] + s.skip(i + 1));
        lemma_pieces_concat(s.take(i), s.skip(i + 1), sep);
        lemma_pieces_skip(s.skip(i), sep);
        assert(s.skip(i).skip(1) == s.skip(i + 1));
    } else {
        assert(s.take(i) == s);
        lemma_pieces_whole(s.skip(i), sep);
    }
}

/// The non-empty pieces of joined parts are the parts, where each part is
/// non-empty and holds no separator.
pub proof fn lemma_pieces_join(parts: Seq<Seq<char>>, sep: char)
    requires
        forall|i: int| 0 <= i < parts.len() ==> (#[trigger] parts[i]).len() > 0,
        forall|i: int| 0 <= i < parts.len() ==> free_of(#[trigger] parts[i], sep),
    ensures
        pieces(join(parts, sep), sep) == parts,
    decreases parts.len(),
{
    if parts.len() == 0 {
        lemma_pieces_whole(Seq::<char>::empty(), sep);
    } else if parts.len() == 1 {
        lemma_pieces_whole(parts[0], sep);
    } else {
        let init = parts.drop_last();
        lemma_pieces_join(init, sep);
        lemma_pieces_concat(join(init, sep), parts.last(), sep);
        lemma_pieces_whole(parts.last(), sep);
    }
}

/// Looks for the first non-empty piece between separators in the part of
/// `chars` from `from` up to `to`, and gives its bounds. What follows the
/// piece holds the pieces that are left.
pub fn next_piece(chars: &[char], from: usize, to: usize, sep: char) -> (r: Option<(usize, usize)>)
    requires
        from <= to <= chars@.len(),
    ensures
        match r {
            None => pieces(chars@.subrange(from as int, to as int), sep).len() == 0,
            Some((start, end)) => {
                &&& from <= start < end <= to
                &&& forall|j: int| from <= j < start ==> chars@[j] == sep
                &&& free_of(chars@.subrange(start as int, end as int), sep)
                &&& end < to ==> chars@[end as int] == sep
                &&& pieces(chars@.subrange(from as int, to as int), sep) == seq![
                    chars@.subrange(start as int, end as int),
                ] + pieces(chars@.subrange(end as int, to as int), sep)
            },
        },
{
    let mut start: usize = from;
    while start < to && chars[start] == sep
        invariant
            from <= start <= to <= chars@.len(),
            forall|j: int| from <= j < start ==> chars@[j] == sep,
            pieces(chars@.subrange(from as int, to as int), sep) == pieces(
                chars@.subrange(start as int, to as int),
                sep,
            ),
        decreases to - start,
    {
        proof {
            let rest = chars@.subrange(start as int, to as int);
            lemma_pieces_skip(rest, sep);
            assert(rest.skip(1) == chars@.subrange(start + 1, to as int));
        }
        start += 1;
    }
    if start == to {
        proof {
            lemma_pieces_whole(chars@.subrange(start as int, to as int), sep);
        }
        return None;
    }
    let mut end: usize = start + 1;
    while end < to && chars[end] != sep
        invariant
            start < end <= to <= chars@.len(),
            forall|j: int| start <= j < end ==> chars@[j] != sep,
        decreases to - end,
    {
        end += 1;
    }
    proof {
        let rest = chars@.subrange(start as int, to as int);
        assert(rest.take(end - start) == chars@.subrange(start as int, end as int));
        assert(rest.skip(end - start) == chars@.subrange(end as int, to as int));
        lemma_pieces_first(rest, sep, end - start);
    }
    Some((start, end))
}

} // verus!
