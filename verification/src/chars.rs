//! Characters of a string: white space, trimming, comparison and access by
//! position.

use vstd::prelude::*;
use vstd::string::StrSliceExecFns;

verus! {

/// Whether `c` is white space: one of the characters that Unicode marks as
/// `White_Space`.
pub open spec fn white_space(c: char) -> bool {
    ||| '\u{9}' <= c <= '\u{d}'
    ||| c == ' '
    ||| c == '\u{85}'
    ||| c == '\u{a0}'
    ||| c == '\u{1680}'
    ||| '\u{2000}' <= c <= '\u{200a}'
    ||| c == '\u{2028}'
    ||| c == '\u{2029}'
    ||| c == '\u{202f}'
    ||| c == '\u{205f}'
    ||| c == '\u{3000}'
}

/// Every character of `s` is white space.
pub open spec fn blank(s: Seq<char>) -> bool {
    forall|j: int| 0 <= j < s.len() ==> white_space(s[j])
}

/// `s` without the white space at its start.
pub open spec fn trim_start(s: Seq<char>) -> Seq<char>
    decreases s.len(),
{
    if s.len() > 0 && white_space(s[0]) {
        trim_start(s.skip(1))
    } else {
        s
    }
}

/// `s` without the white space at its end.
pub open spec fn trim_end(s: Seq<char>) -> Seq<char>
    decreases s.len(),
{
    if s.len() > 0 && white_space(s.last()) {
        trim_end(s.drop_last())
    } else {
        s
    }
}

/// `s` without the white space at its start and at its end.
pub open spec fn trim(s: Seq<char>) -> Seq<char> {
    trim_end(trim_start(s))
}

/// White space at the start is trimmed, however much there is.
pub proof fn lemma_trim_start_blank(lead: Seq<char>, s: Seq<char>)
    requires
        blank(lead),
    ensures
        trim_start(lead + s) == trim_start(s),
    decreases lead.len(),
{
    if lead.len() > 0 {
        assert((lead + s).skip(1) == lead.skip(1) + s);
        lemma_trim_start_blank(lead.skip(1), s);
    }
}

/// White space at the end is trimmed, however much there is.
pub proof fn lemma_trim_end_blank(s: Seq<char>, trail: Seq<char>)
    requires
        blank(trail),
    ensures
        trim_end(s + trail) == trim_end(s),
    decreases trail.len(),
{
    if trail.len() > 0 {
        assert((s + trail).drop_last() == s + trail.drop_last());
        lemma_trim_end_blank(s, trail.drop_last());
    }
}

/// Trimming gives back what stands between the white space at the two ends,
/// where that begins and ends with something else.
pub proof fn lemma_trim_padded(lead: Seq<char>, core: Seq<char>, trail: Seq<char>)
    requires
        blank(lead),
        blank(trail),
        core.len() > 0,
        !white_space(core[0]),
        !white_space(core.last()),
    ensures
        trim(lead + core + trail) == core,
{
    assert(lead + core + trail == lead + (core + trail));
    lemma_trim_start_blank(lead, core + trail);
    lemma_trim_end_blank(core, trail);
}

/// Tells whether `c` is white space.
#[verifier::when_used_as_spec(white_space)]
pub fn is_whitespace(c: char) -> (b: bool)
    ensures
        b == white_space(c),
{
    ('\u{9}' <= c && c <= '\u{d}') || c == ' ' || c == '\u{85}' || c == '\u{a0}' || c == '\u{1680}'
        || ('\u{2000}' <= c && c <= '\u{200a}') || c == '\u{2028}' || c == '\u{2029}' || c
        == '\u{202f}' || c == '\u{205f}' || c == '\u{3000}'
}

/// The characters of `s`, one element each.
pub fn chars_of(s: &str) -> (chars: Vec<char>)
    ensures
        chars@ == s@,
{
    let mut chars: Vec<char> = Vec::new();
    for c in it: s.chars()
        invariant
            chars@ == it.seq().take(it.index() as int),
    {
        chars.push(c);
    }
    chars
}

/// Tells whether two strings hold the same characters.
pub fn same_text(a: &str, b: &str) -> (same: bool)
    ensures
        same == (a@ == b@),
{
    let left = chars_of(a);
    let right = chars_of(b);
    if left.len() != right.len() {
        return false;
    }
    let mut i: usize = 0;
    while i < left.len()
        invariant
            left@ == a@,
            right@ == b@,
            i <= left.len() == right.len(),
            forall|j: int| 0 <= j < i ==> left@[j] == right@[j],
        decreases left.len() - i,
    {
        if left[i] != right[i] {
            return false;
        }
        i += 1;
    }
    assert(a@ =~= b@);
    true
}

/// Trims the part of `chars` from `lo` up to `hi`: gives the bounds of what
/// is left of it without the white space at its two ends. Where nothing is
/// left, both bounds are `hi`.
pub fn trim_range(chars: &[char], lo: usize, hi: usize) -> (r: (usize, usize))
    requires
        lo <= hi <= chars@.len(),
    ensures
        lo <= r.0 <= r.1 <= hi,
        r.0 == hi - trim_start(chars@.subrange(lo as int, hi as int)).len(),
        r.1 == r.0 + trim(chars@.subrange(lo as int, hi as int)).len(),
        chars@.subrange(r.0 as int, r.1 as int) == trim(chars@.subrange(lo as int, hi as int)),
{
    let mut from: usize = lo;
    while from < hi && is_whitespace(chars[from])
        invariant
            lo <= from <= hi <= chars@.len(),
            trim_start(chars@.subrange(lo as int, hi as int)) == trim_start(
                chars@.subrange(from as int, hi as int),
            ),
        decreases hi - from,
    {
        assert(chars@.subrange(from as int, hi as int).skip(1) == chars@.subrange(
            from + 1,
            hi as int,
        ));
        from += 1;
    }
    let mut to: usize = hi;
    while from < to && is_whitespace(chars[to - 1])
        invariant
            from <= to <= hi <= chars@.len(),
            trim_end(chars@.subrange(from as int, hi as int)) == trim_end(
                chars@.subrange(from as int, to as int),
            ),
        decreases to - from,
    {
        assert(chars@.subrange(from as int, to as int).drop_last() == chars@.subrange(
            from as int,
            to - 1,
        ));
        to -= 1;
    }
    (from, to)
}

/// A string with its characters laid out for access by position.
pub struct Text<'a> {
    source: &'a str,
    chars: Vec<char>,
    ascii: bool,
}

impl<'a> View for Text<'a> {
    type V = Seq<char>;

    /// The characters of the string.
    closed spec fn view(&self) -> Seq<char> {
        self.source@
    }
}

impl<'a> Text<'a> {
    #[verifier::type_invariant]
    spec fn valid(self) -> bool {
        &&& self.chars@ == self.source@
        &&& self.ascii ==> self.source.is_ascii()
    }

    /// Lays out the characters of `source`.
    pub fn new(source: &'a str) -> (text: Text<'a>)
        ensures
            text@ == source@,
    {
        Text { source, chars: chars_of(source), ascii: source.is_ascii() }
    }

    /// The characters.
    pub fn chars(&self) -> (chars: &[char])
        ensures
            chars@ == self@,
    {
        proof {
            use_type_invariant(self);
        }
        self.chars.as_slice()
    }

    /// The part of the string from the character at `from` up to the one at
    /// `to`. Where the string holds characters beyond ASCII, this walks the
    /// string from its start.
    pub fn slice(&self, from: usize, to: usize) -> (part: &'a str)
        requires
            from <= to <= self@.len(),
        ensures
            part@ == self@.subrange(from as int, to as int),
    {
        proof {
            use_type_invariant(self);
        }
        if self.ascii {
            self.source.substring_ascii(from, to)
        } else {
            self.source.substring_char(from, to)
        }
    }
}

} // verus!
