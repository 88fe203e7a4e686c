//! Sentence capitalization of the romanized text.
use vstd::prelude::*;
use crate::scan::push_all;
use crate::text::{chars_of, is_white, string_of, upper, upper_of, white_space};

verus! {

/// Sentence-terminal punctuation.
pub open spec fn terminator(c: char) -> bool {
    c == '.' || c == '!' || c == '?'
}

pub open spec fn trim_start(s: Seq<char>) -> Seq<char>
    decreases s.len(),
{
    if s.len() > 0 && white_space(s[0]) {
        trim_start(s.skip(1))
    } else {
        s
    }
}

pub open spec fn trim_end(s: Seq<char>) -> Seq<char>
    decreases s.len(),
{
    if s.len() > 0 && white_space(s.last()) {
        trim_end(s.drop_last())
    } else {
        s
    }
}

/// `s` without leading and trailing white space.
pub open spec fn trim(s: Seq<char>) -> Seq<char> {
    trim_end(trim_start(s))
}

/// `s` with its first character upper-cased.
pub open spec fn capitalized(s: Seq<char>) -> Seq<char> {
    if s.len() == 0 {
        Seq::empty()
    } else {
        upper_of(s[0]) + s.skip(1)
    }
}

/// The segments of `t` (each up to and including a terminator, and a last
/// one without), where `cur` is the part of the current segment already read:
/// each trimmed and capitalized, joined by single spaces.
pub open spec fn sentences_from(cur: Seq<char>, t: Seq<char>) -> Seq<char>
    decreases t.len(),
{
    if t.len() == 0 {
        if cur.len() == 0 {
            Seq::empty()
        } else {
            capitalized(trim(cur))
        }
    } else if terminator(t[0]) {
        if t.len() == 1 {
            capitalized(trim(cur.push(t[0])))
        } else {
            capitalized(trim(cur.push(t[0]))) + seq![' '] + sentences_from(Seq::empty(), t.skip(1))
        }
    } else {
        sentences_from(cur.push(t[0]), t.skip(1))
    }
}

/// `t` split into sentences, each trimmed and capitalized, joined by single spaces.
pub open spec fn sentence_case(t: Seq<char>) -> Seq<char> {
    sentences_from(Seq::empty(), t)
}

/// `s` trimmed of white space at both ends.
fn trim_chars(s: &Vec<char>) -> (r: Vec<char>)
    ensures
        r@ == trim(s@),
{
    let mut lo: usize = 0;
    proof {
        assert(s@.skip(0) =~= s@);
    }
    while lo < s.len() && is_white(s[lo])
        invariant
            lo <= s.len(),
            trim_start(s@) == trim_start(s@.skip(lo as int)),
        decreases s.len() - lo,
    {
        proof {
            assert(s@.skip(lo as int).skip(1) =~= s@.skip(lo + 1));
        }
        lo += 1;
    }
    let mut hi: usize = s.len();
    proof {
        assert(s@.skip(lo as int) =~= s@.subrange(lo as int, hi as int));
    }
    while hi > lo && is_white(s[hi - 1])
        invariant
            lo <= hi <= s.len(),
            trim_start(s@) == s@.skip(lo as int),
            trim(s@) == trim_end(s@.subrange(lo as int, hi as int)),
        decreases hi - lo,
    {
        proof {
            assert(s@.subrange(lo as int, hi as int).drop_last() =~= s@.subrange(
                lo as int,
                hi - 1,
            ));
        }
        hi -= 1;
    }
    let mut r: Vec<char> = Vec::new();
    let mut k: usize = lo;
    while k < hi
        invariant
            lo <= k <= hi <= s.len(),
            r@ == s@.subrange(lo as int, k as int),
        decreases hi - k,
    {
        r.push(s[k]);
        proof {
            assert(r@ =~= s@.subrange(lo as int, k + 1));
        }
        k += 1;
    }
    r
}

/// `s` with its first character upper-cased.
fn capitalize_chars(s: &Vec<char>) -> (r: Vec<char>)
    ensures
        r@ == capitalized(s@),
{
    if s.len() == 0 {
        return Vec::new();
    }
    let mut r = upper(s[0]);
    let ghost head = r@;
    let mut k: usize = 1;
    while k < s.len()
        invariant
            1 <= k <= s.len(),
            r@ == head + s@.subrange(1, k as int),
        decreases s.len() - k,
    {
        r.push(s[k]);
        proof {
            assert(r@ =~= head + s@.subrange(1, k + 1));
        }
        k += 1;
    }
    proof {
        assert(s@.subrange(1, s.len() as int) =~= s@.skip(1));
    }
    r
}

/// Upper-cases the first character of `sentence`.
pub fn capitalize(sentence: &str) -> (r: String)
    ensures
        r@ == capitalized(sentence@),
{
    let s = chars_of(sentence);
    string_of(&capitalize_chars(&s))
}

/// Splits `t` after each `.`, `!` and `?`, trims and capitalizes each
/// segment, and joins them with single spaces.
pub fn sentence_case_chars(t: &Vec<char>) -> (r: Vec<char>)
    ensures
        r@ == sentence_case(t@),
{
    let mut out: Vec<char> = Vec::new();
    let mut cur: Vec<char> = Vec::new();
    let mut i: usize = 0;
    proof {
        assert(t@.skip(0) =~= t@);
    }
    while i < t.len()
        invariant
            i <= t.len(),
            sentence_case(t@) == out@ + sentences_from(cur@, t@.skip(i as int)),
        decreases t.len() - i,
    {
        let c = t[i];
        let ghost u = t@.skip(i as int);
        proof {
            assert(u.skip(1) =~= t@.skip(i + 1));
        }
        cur.push(c);
        if c == '.' || c == '!' || c == '?' {
            let seg = capitalize_chars(&trim_chars(&cur));
            let ghost before = out@;
            push_all(&mut out, &seg);
            if i + 1 < t.len() {
                out.push(' ');
                proof {
                    assert(out@ + sentences_from(Seq::empty(), t@.skip(i + 1)) =~= before + (seg@
                        + seq![' '] + sentences_from(Seq::empty(), u.skip(1))));
                }
            } else {
                proof {
                    assert(t@.skip(i + 1) =~= Seq::<char>::empty());
                    assert(out@ + sentences_from(Seq::empty(), t@.skip(i + 1)) =~= before + seg@);
                }
            }
            cur = Vec::new();
        }
        i += 1;
    }
    proof {
        assert(t@.skip(t.len() as int) =~= Seq::<char>::empty());
    }
    if cur.len() > 0 {
        let seg = capitalize_chars(&trim_chars(&cur));
        push_all(&mut out, &seg);
    }
    out
}

} // verus!
