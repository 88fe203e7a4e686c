//! Calls into std and the `regex` crate, with what the rewriting relies on.
use vstd::prelude::*;
use crate::glyphs::ZWNJ;

verus! {

/// `t` with every zero-width non-joiner removed.
pub open spec fn without_zwnj(t: Seq<char>) -> Seq<char>
    decreases t.len(),
{
    if t.len() == 0 {
        Seq::empty()
    } else if t[0] == ZWNJ {
        without_zwnj(t.skip(1))
    } else {
        seq![t[0]] + without_zwnj(t.skip(1))
    }
}

/// Unicode's White_Space property.
pub open spec fn white_space(c: char) -> bool {
    let u = c as u32;
    (0x09 <= u <= 0x0D) || u == 0x20 || u == 0x85 || u == 0xA0 || u == 0x1680 || (0x2000 <= u
        <= 0x200A) || u == 0x2028 || u == 0x2029 || u == 0x202F || u == 0x205F || u == 0x3000
}

/// Whether `c` is in the regex class `\w` (Unicode word characters).
pub uninterp spec fn word_char(c: char) -> bool;

/// The upper-case mapping of `c`, as `char::to_uppercase` yields it.
pub uninterp spec fn upper_of(c: char) -> Seq<char>;

/// Relies on `str::chars`: the characters of `s`, in order.
#[verifier::external_body]
pub(crate) fn chars_of(s: &str) -> (r: Vec<char>)
    ensures
        r@ == s@,
{
    s.chars().collect()
}

/// Relies on `String: FromIterator<char>`: the characters of `v`, in order.
#[verifier::external_body]
pub(crate) fn string_of(v: &Vec<char>) -> (r: String)
    ensures
        r@ == v@,
{
    v.iter().collect()
}

/// Relies on `regex::Regex::replace_all` with the literal pattern U+200C and
/// an empty replacement: every occurrence is removed, the rest kept in order.
#[verifier::external_body]
pub(crate) fn strip_zwnj(s: &str) -> (r: String)
    ensures
        r@ == without_zwnj(s@),
{
    regex::Regex::new("\u{200c}").expect("constant pattern").replace_all(s, "").into_owned()
}

/// Relies on `regex::Regex::is_match` with the pattern `^\w$`: whether the
/// one-character text `c` is a word character.
#[verifier::external_body]
pub(crate) fn is_word_char(c: char) -> (r: bool)
    ensures
        r == word_char(c),
{
    regex::Regex::new(r"^\w$").expect("constant pattern").is_match(&c.to_string())
}

/// Relies on `char::is_whitespace`: the White_Space property.
#[verifier::external_body]
pub(crate) fn is_white(c: char) -> (r: bool)
    ensures
        r == white_space(c),
{
    c.is_whitespace()
}

/// Relies on `char::to_uppercase`: the upper-case mapping of `c`.
#[verifier::external_body]
pub(crate) fn upper(c: char) -> (r: Vec<char>)
    ensures
        r@ == upper_of(c),
{
    c.to_uppercase().collect()
}

} // verus!
