//! Text as sequences of characters: blank text, substring search, literal
//! replacement and prefixes.

use vstd::prelude::*;
use vstd::string::StrSliceExecFns;
use vstd::string::StringExecFns;

verus! {

/// Whether a character has the Unicode property `White_Space`.
pub open spec fn is_white_space(c: char) -> bool {
    let code = c as u32;
    ||| 0x09 <= code <= 0x0d
    ||| code == 0x20
    ||| code == 0x85
    ||| code == 0xa0
    ||| code == 0x1680
    ||| 0x2000 <= code <= 0x200a
    ||| code == 0x2028
    ||| code == 0x2029
    ||| code == 0x202f
    ||| code == 0x205f
    ||| code == 0x3000
}

/// Whether a text holds nothing but white space, so that trimming it leaves
/// the empty text.
pub open spec fn is_blank(text: Seq<char>) -> bool {
    forall|i: int| 0 <= i < text.len() ==> is_white_space(#[trigger] text[i])
}

/// Whether `needle` stands in `text` at offset `at`.
pub open spec fn occurs_at(text: Seq<char>, needle: Seq<char>, at: int) -> bool {
    &&& 0 <= at
    &&& at + needle.len() <= text.len()
    &&& text.subrange(at, at + needle.len()) == needle
}

/// Whether `needle` is a contiguous part of `text`.
pub open spec fn has_substring(text: Seq<char>, needle: Seq<char>) -> bool {
    exists|at: int| occurs_at(text, needle, at)
}

/// `text` with every occurrence of `pattern` replaced by `with`, the
/// occurrences taken from the left and without overlap. An empty pattern
/// occurs nowhere.
pub open spec fn replaced(text: Seq<char>, pattern: Seq<char>, with: Seq<char>) -> Seq<char>
    decreases text.len(),
{
    if pattern.len() == 0 || text.len() < pattern.len() {
        text
    } else if occurs_at(text, pattern, 0) {
        with + replaced(text.subrange(pattern.len() as int, text.len() as int), pattern, with)
    } else {
        seq![text[0]] + replaced(text.subrange(1, text.len() as int), pattern, with)
    }
}

/// The first `limit` characters of `text`, or all of it if it has fewer.
pub open spec fn prefix(text: Seq<char>, limit: nat) -> Seq<char> {
    if text.len() <= limit {
        text
    } else {
        text.take(limit as int)
    }
}

/// Tells whether a character is white space.
pub fn white_space(c: char) -> (b: bool)
    ensures
        b == is_white_space(c),
{
    let code: u32 = c as u32;
    (0x09 <= code && code <= 0x0d) || code == 0x20 || code == 0x85 || code == 0xa0 || code
        == 0x1680 || (0x2000 <= code && code <= 0x200a) || code == 0x2028 || code == 0x2029
        || code == 0x202f || code == 0x205f || code == 0x3000
}

/// Tells whether a text is blank.
pub fn blank(text: &str) -> (b: bool)
    ensures
        b == is_blank(text@),
{
    for c in it: text.chars()
        invariant
            it.seq() == text@,
            forall|i: int| 0 <= i < it.index() ==> is_white_space(#[trigger] text@[i]),
    {
        if !white_space(c) {
            return false;
        }
    }
    true
}

/// The characters of a string, in order.
pub fn chars_of(s: &str) -> (chars: Vec<char>)
    ensures
        chars@ == s@,
{
    let mut chars: Vec<char> = Vec::new();
    for c in it: s.chars()
        invariant
            chars@ == it.seq().take(it.index() as int),
            it.seq() == s@,
    {
        chars.push(c);
    }
    chars
}

/// Tells whether `needle` stands in `text` at offset `at`.
pub fn matches_at(text: &[char], needle: &[char], at: usize) -> (b: bool)
    ensures
        b == occurs_at(text@, needle@, at as int),
{
    if at > text.len() || needle.len() > text.len() - at {
        return false;
    }
    let mut i: usize = 0;
    while i < needle.len()
        invariant
            i <= needle.len(),
            at + needle.len() <= text.len(),
            forall|j: int| 0 <= j < i ==> text@[at + j] == needle@[j],
        decreases needle.len() - i,
    {
        if text[at + i] != needle[i] {
            proof {
                let part = text@.subrange(at as int, at + needle.len());
                assert(part[i as int] == text@[at + i]);
            }
            return false;
        }
        i += 1;
    }
    proof {
        assert(text@.subrange(at as int, at + needle.len()) =~= needle@);
    }
    true
}

/// Tells whether `needle` is a contiguous part of `text`.
pub fn contains(text: &[char], needle: &[char]) -> (b: bool)
    ensures
        b == has_substring(text@, needle@),
{
    if needle.len() > text.len() {
        return false;
    }
    let last: usize = text.len() - needle.len();
    let mut at: usize = 0;
    loop
        invariant
            last == text.len() - needle.len(),
            at <= last,
            forall|j: int| 0 <= j < at ==> !occurs_at(text@, needle@, j),
        decreases last - at,
    {
        if matches_at(text, needle, at) {
            return true;
        }
        if at == last {
            return false;
        }
        at += 1;
    }
}

/// Replaces every occurrence of a pattern in a text, from the left and without
/// overlap.
pub fn replace_all(text: &str, pattern: &str, with: &str) -> (out: String)
    ensures
        out@ == replaced(text@, pattern@, with@),
{
    let chars = chars_of(text);
    let pat = chars_of(pattern);
    let n: usize = chars.len();
    let m: usize = pat.len();
    if m == 0 || n < m {
        return text.to_owned();
    }
    let mut out = String::new();
    let mut copied: usize = 0;
    let mut at: usize = 0;
    proof {
        assert(text@.subrange(0, n as int) =~= text@);
    }
    while at <= n - m
        invariant
            chars@ == text@,
            pat@ == pattern@,
            n == text@.len(),
            m == pattern@.len(),
            0 < m <= n,
            copied <= at <= n,
            replaced(text@, pattern@, with@) == out@ + text@.subrange(copied as int, at as int)
                + replaced(text@.subrange(at as int, n as int), pattern@, with@),
        decreases n - at,
    {
        let ghost rest = text@.subrange(at as int, n as int);
        proof {
            assert(occurs_at(rest, pattern@, 0) == occurs_at(text@, pattern@, at as int)) by {
                assert(rest.subrange(0, m as int) =~= text@.subrange(at as int, at + m));
            }
        }
        if matches_at(chars.as_slice(), pat.as_slice(), at) {
            out.append(text.substring_char(copied, at));
            out.append(with);
            proof {
                assert(rest.subrange(m as int, rest.len() as int) =~= text@.subrange(
                    at + m,
                    n as int,
                ));
                assert(text@.subrange(at + m, at + m) =~= Seq::<char>::empty());
            }
            at += m;
            copied = at;
        } else {
            proof {
                assert(rest.subrange(1, rest.len() as int) =~= text@.subrange(at + 1, n as int));
                assert(text@.subrange(copied as int, at as int) + seq![rest[0]] =~= text@.subrange(
                    copied as int,
                    at + 1,
                ));
            }
            at += 1;
        }
    }
    out.append(text.substring_char(copied, n));
    proof {
        assert(text@.subrange(copied as int, at as int) + text@.subrange(at as int, n as int)
            =~= text@.subrange(copied as int, n as int));
    }
    out
}

/// The first `limit` characters of a text, or all of it if it has fewer.
pub fn truncate(text: &str, limit: usize) -> (out: &str)
    ensures
        out@ == prefix(text@, limit as nat),
{
    if text.unicode_len() <= limit {
        text
    } else {
        text.substring_char(0, limit)
    }
}

} // verus!
