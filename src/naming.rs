//! The naming normalizer: `snake_case` identifiers to `CamelCase`.
use vstd::prelude::*;
use crate::text::{chars_of, string_of};

verus! {

/// ASCII upper case of `c`; any other character is kept.
pub open spec fn upper(c: char) -> char {
    if 'a' <= c && c <= 'z' {
        ((c as u8) - 32) as char
    } else {
        c
    }
}

/// ASCII lower case of `c`; any other character is kept.
pub open spec fn lower(c: char) -> char {
    if 'A' <= c && c <= 'Z' {
        ((c as u8) + 32) as char
    } else {
        c
    }
}

/// The camel-case form of `s`, where `at_start` says whether the first
/// character of `s` would begin a segment: underscores are dropped, the first
/// character of each underscore-separated segment is upper-cased and every
/// other character is lower-cased.
pub open spec fn camel_from(s: Seq<char>, at_start: bool) -> Seq<char>
    decreases s.len(),
{
    if s.len() == 0 {
        Seq::empty()
    } else if s[0] == '_' {
        camel_from(s.drop_first(), true)
    } else {
        seq![if at_start { upper(s[0]) } else { lower(s[0]) }] + camel_from(s.drop_first(), false)
    }
}

/// The camel-case form of an identifier.
pub open spec fn camel(s: Seq<char>) -> Seq<char> {
    camel_from(s, true)
}

/// ASCII upper case of a character.
pub fn upper_char(c: char) -> (r: char)
    ensures
        r == upper(c),
{
    if 'a' <= c && c <= 'z' {
        ((c as u8) - 32) as char
    } else {
        c
    }
}

fn lower_char(c: char) -> (r: char)
    ensures
        r == lower(c),
{
    if 'A' <= c && c <= 'Z' {
        ((c as u8) + 32) as char
    } else {
        c
    }
}

/// Camel case of a character sequence.
pub fn camel_chars(s: &Vec<char>) -> (r: Vec<char>)
    ensures
        r@ == camel(s@),
{
    let mut out: Vec<char> = Vec::new();
    let mut at_start = true;
    let mut i: usize = 0;
    assert(s@.subrange(0, s@.len() as int) =~= s@);
    assert(out@ + camel(s@) =~= camel(s@));
    while i < s.len()
        invariant
            i <= s.len(),
            out@ + camel_from(s@.subrange(i as int, s@.len() as int), at_start) == camel(s@),
        decreases s.len() - i,
    {
        let ghost rest = s@.subrange(i as int, s@.len() as int);
        assert(rest.drop_first() =~= s@.subrange(i + 1, s@.len() as int));
        let c = s[i];
        if c == '_' {
            at_start = true;
        } else {
            let d = if at_start { upper_char(c) } else { lower_char(c) };
            out.push(d);
            at_start = false;
        }
        i = i + 1;
    }
    assert(s@.subrange(i as int, s@.len() as int) =~= Seq::<char>::empty());
    assert(out@ =~= out@ + Seq::<char>::empty());
    out
}

/// Turns a `snake_case` identifier into `CamelCase`: split on underscores,
/// drop empty segments, upper-case the first character of each segment and
/// lower-case the rest, and join with no separator.
pub fn to_camel_case(arg: &str) -> (r: String)
    ensures
        r@ == camel(arg@),
{
    let v = chars_of(arg);
    let c = camel_chars(&v);
    string_of(&c)
}

} // verus!
