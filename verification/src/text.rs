//! Character-level helpers for the input line: appending, deleting, and
//! comparing with surrounding whitespace ignored.

use vstd::prelude::*;
use vstd::string::StrSliceExecFns;

verus! {

/// Whether `c` is white space: the characters with the Unicode property
/// `White_Space`.
pub open spec fn is_space(c: char) -> bool {
    let u = c as u32;
    ||| 0x09 <= u <= 0x0d
    ||| u == 0x20
    ||| u == 0x85
    ||| u == 0xa0
    ||| u == 0x1680
    ||| 0x2000 <= u <= 0x200a
    ||| u == 0x2028
    ||| u == 0x2029
    ||| u == 0x202f
    ||| u == 0x205f
    ||| u == 0x3000
}

/// `s` without its leading white space.
pub open spec fn trim_start(s: Seq<char>) -> Seq<char>
    decreases s.len(),
{
    if s.len() > 0 && is_space(s.first()) {
        trim_start(s.drop_first())
    } else {
        s
    }
}

/// `s` without its trailing white space.
pub open spec fn trim_end(s: Seq<char>) -> Seq<char>
    decreases s.len(),
{
    if s.len() > 0 && is_space(s.last()) {
        trim_end(s.drop_last())
    } else {
        s
    }
}

/// `s` without leading and trailing white space.
pub open spec fn trimmed(s: Seq<char>) -> Seq<char> {
    trim_end(trim_start(s))
}

/// `std::string::String::push`: appends one character.
pub assume_specification[ String::push ](s: &mut String, ch: char)
    ensures
        final(s)@ == old(s)@.push(ch),
;

/// `std::string::String::pop`: removes and returns the last character, or
/// returns `None` and leaves an empty string as it is.
pub assume_specification[ String::pop ](s: &mut String) -> (r: Option<char>)
    ensures
        old(s)@.len() == 0 ==> r is None && final(s)@ == old(s)@,
        old(s)@.len() > 0 ==> r == Some(old(s)@.last()) && final(s)@ == old(s)@.drop_last(),
;

/// Whether `c` is white space.
pub fn char_is_space(c: char) -> (r: bool)
    ensures
        r == is_space(c),
{
    let u: u32 = c as u32;
    (0x09 <= u && u <= 0x0d) || u == 0x20 || u == 0x85 || u == 0xa0 || u == 0x1680 || (0x2000 <= u
        && u <= 0x200a) || u == 0x2028 || u == 0x2029 || u == 0x202f || u == 0x205f || u == 0x3000
}

/// Dropping leading white space from a tail whose first character is white
/// space is the same as dropping it from the rest.
proof fn lemma_trim_start_step(s: Seq<char>, a: int)
    requires
        0 <= a < s.len(),
        is_space(s[a]),
    ensures
        trim_start(s.subrange(a, s.len() as int)) == trim_start(s.subrange(a + 1, s.len() as int)),
{
    let t = s.subrange(a, s.len() as int);
    assert(t.first() == s[a]);
    assert(t.drop_first() =~= s.subrange(a + 1, s.len() as int));
}

/// Dropping trailing white space from a head whose last character is white
/// space is the same as dropping it from the head one shorter.
proof fn lemma_trim_end_step(s: Seq<char>, a: int, b: int)
    requires
        0 <= a < b <= s.len(),
        is_space(s[b - 1]),
    ensures
        trim_end(s.subrange(a, b)) == trim_end(s.subrange(a, b - 1)),
{
    let t = s.subrange(a, b);
    assert(t.last() == s[b - 1]);
    assert(t.drop_last() =~= s.subrange(a, b - 1));
}

/// The number of characters of `s`.
pub fn char_len(s: &String) -> (n: usize)
    ensures
        n == s@.len(),
{
    s.as_str().unicode_len()
}

/// Whether `input`, with leading and trailing white space ignored, is
/// exactly `word`.
pub fn trimmed_equals(input: &String, word: &String) -> (r: bool)
    ensures
        r == (trimmed(input@) == word@),
{
    let s = input.as_str();
    let w = word.as_str();
    let n = s.unicode_len();
    let m = w.unicode_len();
    let mut a: usize = 0;
    assert(s@.subrange(0, n as int) =~= s@);
    while a < n && char_is_space(s.get_char(a))
        invariant
            a <= n == s@.len(),
            trim_start(s@) == trim_start(s@.subrange(a as int, n as int)),
        decreases n - a,
    {
        proof {
            lemma_trim_start_step(s@, a as int);
        }
        a = a + 1;
    }
    assert(trim_start(s@) == s@.subrange(a as int, n as int)) by {
        let t = s@.subrange(a as int, n as int);
        if a < n {
            assert(t.first() == s@[a as int]);
        }
    }
    let mut b: usize = n;
    while b > a && char_is_space(s.get_char(b - 1))
        invariant
            a <= b <= n == s@.len(),
            trimmed(s@) == trim_end(s@.subrange(a as int, b as int)),
        decreases b,
    {
        proof {
            lemma_trim_end_step(s@, a as int, b as int);
        }
        b = b - 1;
    }
    assert(trimmed(s@) == s@.subrange(a as int, b as int)) by {
        let t = s@.subrange(a as int, b as int);
        if b > a {
            assert(t.last() == s@[b - 1]);
        }
    }
    if b - a != m {
        return false;
    }
    let mut i: usize = 0;
    while i < m
        invariant
            a <= b <= n == s@.len(),
            b - a == m == w@.len(),
            i <= m,
            input@ == s@,
            word@ == w@,
            trimmed(s@) == s@.subrange(a as int, b as int),
            forall|j: int| 0 <= j < i ==> s@[a + j] == w@[j],
        decreases m - i,
    {
        if s.get_char(a + i) != w.get_char(i) {
            assert(s@.subrange(a as int, b as int)[i as int] != w@[i as int]);
            return false;
        }
        i = i + 1;
    }
    assert(s@.subrange(a as int, b as int) =~= w@);
    true
}

} // verus!
