//! Field names: dotted paths of lower-case identifiers.

use crate::chars::chars_of;
use crate::error::{field_error, outcome, ParseQueryError};
use crate::pieces::{find, lemma_find, lemma_find_is, split};
use vstd::prelude::*;
use vstd::string::StringExecFns;

verus! {

/// Whether `c` may begin a segment of a field name: a lower-case letter or
/// an underscore.
pub open spec fn is_head(c: char) -> bool {
    c == '_' || 'a' <= c <= 'z'
}

/// Whether `c` may stand inside a segment of a field name: a lower-case
/// letter, a digit or an underscore.
pub open spec fn is_tail(c: char) -> bool {
    is_head(c) || '0' <= c <= '9'
}

/// Whether `s` is one segment of a field name: a head character, followed by
/// any number of tail characters.
pub open spec fn is_segment(s: Seq<char>) -> bool {
    &&& s.len() > 0
    &&& is_head(s[0])
    &&& forall|i: int| 0 < i < s.len() ==> is_tail(s[i])
}

/// Whether `s` is a field name: one or more segments with a dot between
/// neighbours.
pub open spec fn is_field_name(s: Seq<char>) -> bool {
    forall|k: int| 0 <= k < split(s, '.').len() ==> is_segment(#[trigger] split(s, '.')[k])
}

/// A sequence is a field name if it is one segment, or if it begins with a
/// segment and a dot and what follows the dot is a field name.
pub proof fn lemma_field_name_unfold(s: Seq<char>)
    ensures
        is_field_name(s) == if find(s, '.') < s.len() {
            is_segment(s.take(find(s, '.'))) && is_field_name(s.skip(find(s, '.') + 1))
        } else {
            is_segment(s)
        },
{
    lemma_find(s, '.');
    let i = find(s, '.');
    let all = split(s, '.');
    if i < s.len() {
        let rest = split(s.skip(i + 1), '.');
        assert(all[0] == s.take(i));
        if is_field_name(s) {
            assert forall|k: int| 0 <= k < rest.len() implies is_segment(#[trigger] rest[k]) by {
                assert(all[k + 1] == rest[k]);
            }
        }
    } else {
        assert(all[0] == s);
    }
}

/// A field name is not empty, and holds nothing but lower-case letters,
/// digits, underscores and dots.
pub proof fn lemma_field_name_chars(s: Seq<char>)
    requires
        is_field_name(s),
    ensures
        s.len() > 0,
        forall|j: int| 0 <= j < s.len() ==> is_tail(#[trigger] s[j]) || s[j] == '.',
        is_head(s[0]),
        is_tail(s.last()),
    decreases s.len(),
{
    lemma_field_name_unfold(s);
    lemma_find(s, '.');
    let i = find(s, '.');
    if i < s.len() {
        let first = s.take(i);
        let rest = s.skip(i + 1);
        lemma_field_name_chars(rest);
        assert forall|j: int| 0 <= j < s.len() implies is_tail(#[trigger] s[j]) || s[j] == '.' by {
            if j < i {
                assert(first[j] == s[j]);
            } else if j > i {
                assert(rest[j - i - 1] == s[j]);
            }
        }
    }
}

/// What parsing a token as a field gives: the token itself where it is a
/// field name, and a message that shows it otherwise.
pub open spec fn parse_field(name: Seq<char>) -> Result<Seq<char>, Seq<char>> {
    if is_field_name(name) {
        Ok(name)
    } else {
        Err(field_error(name))
    }
}

/// The name of a field to order by. The name it holds is always a field name.
#[derive(Debug)]
pub struct Field(String);

impl View for Field {
    type V = Seq<char>;

    /// The name.
    closed spec fn view(&self) -> Seq<char> {
        self.0@
    }
}

impl Clone for Field {
    fn clone(&self) -> (copy: Field)
        ensures
            copy@ == self@,
    {
        proof {
            use_type_invariant(self);
        }
        Field(self.0.clone())
    }
}

/// Tells whether `c` may begin a segment of a field name.
fn begins_segment(c: char) -> (b: bool)
    ensures
        b == is_head(c),
{
    c == '_' || ('a' <= c && c <= 'z')
}

/// Tells whether `c` may stand inside a segment of a field name.
fn continues_segment(c: char) -> (b: bool)
    ensures
        b == is_tail(c),
{
    begins_segment(c) || ('0' <= c && c <= '9')
}

/// Tells whether the characters form a field name.
pub fn is_valid_field_name(chars: &[char]) -> (b: bool)
    ensures
        b == is_field_name(chars@),
{
    let n = chars.len();
    let mut start: usize = 0;
    assert(chars@.skip(0) == chars@);
    loop
        invariant
            start <= n == chars@.len(),
            is_field_name(chars@) == is_field_name(chars@.skip(start as int)),
        decreases n - start,
    {
        let ghost rest = chars@.skip(start as int);
        proof {
            lemma_field_name_unfold(rest);
            lemma_find(rest, '.');
        }
        if start == n || !begins_segment(chars[start]) {
            // The segment that begins here is empty or begins with the wrong
            // character.
            return false;
        }
        let mut i: usize = start + 1;
        while i < n && continues_segment(chars[i])
            invariant
                start < i <= n == chars@.len(),
                forall|j: int| start < j < i ==> is_tail(chars@[j]),
            decreases n - i,
        {
            i += 1;
        }
        if i == n {
            // The last segment reaches the end.
            proof {
                lemma_find_is(rest, '.', rest.len() as int);
            }
            return true;
        }
        if chars[i] != '.' {
            // The segment that begins at `start` goes on past `i`, where a
            // character stands that no segment may hold.
            proof {
                let k = find(rest, '.');
                let first = if k < rest.len() {
                    rest.take(k)
                } else {
                    rest
                };
                assert(!is_tail(first[i - start]));
            }
            return false;
        }
        proof {
            lemma_find_is(rest, '.', i - start);
            assert(rest.skip(i - start + 1) == chars@.skip(i + 1));
        }
        start = i + 1;
    }
}

impl Field {
    #[verifier::type_invariant]
    spec fn valid(self) -> bool {
        is_field_name(self.0@)
    }

    /// Makes a field of `name` where it is a field name, and refuses it
    /// otherwise, with a message that shows it.
    pub fn new(name: &str) -> (r: Result<Field, ParseQueryError>)
        ensures
            outcome(r) == parse_field(name@),
    {
        let chars = chars_of(name);
        if is_valid_field_name(chars.as_slice()) {
            Ok(Field(String::from_str(name)))
        } else {
            Err(ParseQueryError::invalid_field(name))
        }
    }

    /// The name, which is a field name.
    pub fn as_str(&self) -> (name: &str)
        ensures
            name@ == self@,
            is_field_name(name@),
    {
        proof {
            use_type_invariant(self);
        }
        self.0.as_str()
    }

    /// The name as a string of its own.
    pub fn to_string(&self) -> (name: String)
        ensures
            name@ == self@,
    {
        self.0.clone()
    }
}

} // verus!
