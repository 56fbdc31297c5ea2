//! Character-level text utilities shared by the rendering engine: conversion
//! between strings and character vectors, the whitespace predicate, trimming,
//! character runs, and decimal formatting.

use vstd::prelude::*;
use vstd::string::StrSliceExecFns;

verus! {

/// A whitespace character, as `str::trim` and the `\s` character class
/// understand it: the Unicode `White_Space` set.
pub open spec fn is_whitespace_char(c: char) -> bool {
    ||| c == '\t'
    ||| c == '\n'
    ||| c == '\u{000B}'
    ||| c == '\u{000C}'
    ||| c == '\r'
    ||| c == ' '
    ||| c == '\u{0085}'
    ||| c == '\u{00A0}'
    ||| c == '\u{1680}'
    ||| (0x2000 <= c as u32 && c as u32 <= 0x200A)
    ||| c == '\u{2028}'
    ||| c == '\u{2029}'
    ||| c == '\u{202F}'
    ||| c == '\u{205F}'
    ||| c == '\u{3000}'
}

/// Executable check for [`is_whitespace_char`].
pub fn is_ws(c: char) -> (b: bool)
    ensures
        b == is_whitespace_char(c),
{
    let u = c as u32;
    u == 0x09 || u == 0x0A || u == 0x0B || u == 0x0C || u == 0x0D || u == 0x20 || u == 0x85
        || u == 0xA0 || u == 0x1680 || (0x2000 <= u && u <= 0x200A) || u == 0x2028 || u == 0x2029
        || u == 0x202F || u == 0x205F || u == 0x3000
}

/// An ASCII word character: letter, digit or underscore.
pub open spec fn is_word_char(c: char) -> bool {
    ||| ('a' <= c && c <= 'z')
    ||| ('A' <= c && c <= 'Z')
    ||| ('0' <= c && c <= '9')
    ||| c == '_'
}

/// Executable check for [`is_word_char`].
pub fn is_word(c: char) -> (b: bool)
    ensures
        b == is_word_char(c),
{
    ('a' <= c && c <= 'z') || ('A' <= c && c <= 'Z') || ('0' <= c && c <= '9') || c == '_'
}

/// An ASCII decimal digit.
pub open spec fn is_digit_char(c: char) -> bool {
    '0' <= c && c <= '9'
}

/// Executable check for [`is_digit_char`].
pub fn is_digit(c: char) -> (b: bool)
    ensures
        b == is_digit_char(c),
{
    '0' <= c && c <= '9'
}

/// The characters of a string, in order.
pub fn to_chars(s: &str) -> (v: Vec<char>)
    ensures
        v@ == s@,
{
    let n = s.unicode_len();
    let mut v: Vec<char> = Vec::new();
    for i in 0..n
        invariant
            n == s@.len(),
            v@ =~= s@.subrange(0, i as int),
    {
        v.push(s.get_char(i));
    }
    proof {
        assert(v@ =~= s@);
    }
    v
}

/// Relies on `String: FromIterator<char>`: collecting the characters of the
/// vector yields the string with exactly those characters, in order.
#[verifier::external_body]
pub fn chars_to_string(v: &Vec<char>) -> (s: String)
    ensures
        s@ == v@,
{
    v.iter().collect()
}

/// Appends the characters of `s` to `out`.
pub fn append_str(out: &mut Vec<char>, s: &str)
    ensures
        final(out)@ == old(out)@ + s@,
{
    let n = s.unicode_len();
    for i in 0..n
        invariant
            n == s@.len(),
            out@ =~= old(out)@ + s@.subrange(0, i as int),
    {
        out.push(s.get_char(i));
    }
    proof {
        assert(out@ =~= old(out)@ + s@);
    }
}

/// Appends the characters of `src` to `out`.
pub fn append_chars(out: &mut Vec<char>, src: &Vec<char>)
    ensures
        final(out)@ == old(out)@ + src@,
{
    let n = src.len();
    for i in 0..n
        invariant
            n == src@.len(),
            out@ =~= old(out)@ + src@.subrange(0, i as int),
    {
        out.push(src[i]);
    }
    proof {
        assert(out@ =~= old(out)@ + src@);
    }
}

/// Appends `t[lo..hi]` to `out`.
pub fn append_range(out: &mut Vec<char>, t: &Vec<char>, lo: usize, hi: usize)
    requires
        lo <= hi <= t@.len(),
    ensures
        final(out)@ == old(out)@ + t@.subrange(lo as int, hi as int),
{
    for i in lo..hi
        invariant
            lo <= i <= hi <= t@.len(),
            out@ =~= old(out)@ + t@.subrange(lo as int, i as int),
    {
        out.push(t[i]);
    }
    proof {
        assert(out@ =~= old(out)@ + t@.subrange(lo as int, hi as int));
    }
}

/// A copy of `t[lo..hi]`.
pub fn subvec(t: &Vec<char>, lo: usize, hi: usize) -> (r: Vec<char>)
    requires
        lo <= hi <= t@.len(),
    ensures
        r@ == t@.subrange(lo as int, hi as int),
{
    let mut r: Vec<char> = Vec::new();
    append_range(&mut r, t, lo, hi);
    r
}

/// Whether the pattern `pat` occurs in `t` starting at position `i`.
pub open spec fn starts_with_at(t: Seq<char>, pat: Seq<char>, i: int) -> bool {
    &&& 0 <= i
    &&& i + pat.len() <= t.len()
    &&& t.subrange(i, i + pat.len()) == pat
}

/// Executable check for [`starts_with_at`].
pub fn check_at(t: &Vec<char>, pat: &Vec<char>, i: usize) -> (b: bool)
    ensures
        b == starts_with_at(t@, pat@, i as int),
{
    let m = t.len();
    if i > m || pat.len() > m - i {
        proof {
            assert(!starts_with_at(t@, pat@, i as int));
        }
        return false;
    }
    let n = pat.len();
    for k in 0..n
        invariant
            i + n <= m,
            m == t@.len(),
            n == pat@.len(),
            forall|j: int| 0 <= j < k ==> t@[i + j] == pat@[j],
    {
        if t[i + k] != pat[k] {
            proof {
                assert(t@.subrange(i as int, i + pat@.len())[k as int] == t@[i + k]);
            }
            return false;
        }
    }
    proof {
        assert(t@.subrange(i as int, i + pat@.len()) =~= pat@);
    }
    true
}

/// Whether the character `c` occurs in `t`.
pub open spec fn has_char(t: Seq<char>, c: char) -> bool {
    exists|k: int| 0 <= k < t.len() && t[k] == c
}

/// The position of the first occurrence of `c` in `t` at or after `from`,
/// if there is one.
pub open spec fn find_char_from(t: Seq<char>, c: char, from: int) -> Option<int>
    decreases t.len() - from,
{
    if from < 0 || from >= t.len() {
        None
    } else if t[from] == c {
        Some(from)
    } else {
        find_char_from(t, c, from + 1)
    }
}

/// What a [`find_char_from`] answer means.
pub proof fn lemma_find_char_from(t: Seq<char>, c: char, from: int)
    requires
        0 <= from,
    ensures
        match find_char_from(t, c, from) {
            Some(j) => from <= j < t.len() && t[j] == c && forall|k: int|
                from <= k < j ==> t[k] != c,
            None => forall|k: int| from <= k < t.len() ==> t[k] != c,
        },
    decreases t.len() - from,
{
    if from < t.len() && t[from] != c {
        lemma_find_char_from(t, c, from + 1);
    }
}

/// [`find_char_from`] lands on `e` when `c` stands there and nowhere
/// before it.
pub proof fn lemma_find_char_skips(t: Seq<char>, c: char, j: int, e: int)
    requires
        0 <= j <= e < t.len(),
        t[e] == c,
        forall|k: int| j <= k < e ==> t[k] != c,
    ensures
        find_char_from(t, c, j) == Some(e),
    decreases e - j,
{
    if j < e {
        lemma_find_char_skips(t, c, j + 1, e);
    }
}

/// Executable search for [`find_char_from`].
pub fn find_char(t: &Vec<char>, c: char, from: usize) -> (r: Option<usize>)
    ensures
        match r {
            Some(j) => find_char_from(t@, c, from as int) == Some(j as int),
            None => find_char_from(t@, c, from as int) is None,
        },
{
    let mut i: usize = from;
    while i < t.len()
        invariant
            from <= i,
            find_char_from(t@, c, from as int) == find_char_from(t@, c, i as int),
        decreases t@.len() - i,
    {
        if t[i] == c {
            return Some(i);
        }
        i += 1;
    }
    None
}

/// The length of the whitespace run starting at `i`.
pub open spec fn ws_run_len(t: Seq<char>, i: int) -> int
    decreases t.len() - i,
{
    if 0 <= i < t.len() && is_whitespace_char(t[i]) {
        1 + ws_run_len(t, i + 1)
    } else {
        0
    }
}

/// A whitespace run is well formed: it stays inside the text, every
/// character in it is whitespace, and the first character after it is not.
pub proof fn lemma_ws_run_len(t: Seq<char>, i: int)
    requires
        0 <= i <= t.len(),
    ensures
        0 <= ws_run_len(t, i),
        i + ws_run_len(t, i) <= t.len(),
        forall|k: int| i <= k < i + ws_run_len(t, i) ==> is_whitespace_char(t[k]),
        i + ws_run_len(t, i) < t.len() ==> !is_whitespace_char(t[i + ws_run_len(t, i)]),
    decreases t.len() - i,
{
    if 0 <= i < t.len() && is_whitespace_char(t[i]) {
        lemma_ws_run_len(t, i + 1);
    }
}

/// Executable count of the whitespace run starting at `i`.
pub fn ws_run(t: &Vec<char>, i: usize) -> (n: usize)
    requires
        i <= t@.len(),
    ensures
        n == ws_run_len(t@, i as int),
        i + n <= t@.len(),
{
    let mut j: usize = i;
    while j < t.len() && is_ws(t[j])
        invariant
            i <= j <= t@.len(),
            ws_run_len(t@, i as int) == (j - i) + ws_run_len(t@, j as int),
        decreases t@.len() - j,
    {
        proof {
            assert(ws_run_len(t@, j as int) == 1 + ws_run_len(t@, j + 1));
        }
        j += 1;
    }
    j - i
}

/// The length of the run of characters equal to `c` starting at `i`.
pub open spec fn char_run_len(t: Seq<char>, c: char, i: int) -> int
    decreases t.len() - i,
{
    if 0 <= i < t.len() && t[i] == c {
        1 + char_run_len(t, c, i + 1)
    } else {
        0
    }
}

/// A character run is well formed, like [`lemma_ws_run_len`].
pub proof fn lemma_char_run_len(t: Seq<char>, c: char, i: int)
    requires
        0 <= i <= t.len(),
    ensures
        0 <= char_run_len(t, c, i),
        i + char_run_len(t, c, i) <= t.len(),
        forall|k: int| i <= k < i + char_run_len(t, c, i) ==> t[k] == c,
        i + char_run_len(t, c, i) < t.len() ==> t[i + char_run_len(t, c, i)] != c,
    decreases t.len() - i,
{
    if 0 <= i < t.len() && t[i] == c {
        lemma_char_run_len(t, c, i + 1);
    }
}

/// Executable count of the run of characters equal to `c` starting at `i`.
pub fn char_run(t: &Vec<char>, c: char, i: usize) -> (n: usize)
    requires
        i <= t@.len(),
    ensures
        n == char_run_len(t@, c, i as int),
        i + n <= t@.len(),
{
    let mut j: usize = i;
    while j < t.len() && t[j] == c
        invariant
            i <= j <= t@.len(),
            char_run_len(t@, c, i as int) == (j - i) + char_run_len(t@, c, j as int),
        decreases t@.len() - j,
    {
        proof {
            assert(char_run_len(t@, c, j as int) == 1 + char_run_len(t@, c, j + 1));
        }
        j += 1;
    }
    j - i
}

/// The length of the ASCII-word-character run starting at `i`.
pub open spec fn word_run_len(t: Seq<char>, i: int) -> int
    decreases t.len() - i,
{
    if 0 <= i < t.len() && is_word_char(t[i]) {
        1 + word_run_len(t, i + 1)
    } else {
        0
    }
}

/// A word run is well formed, like [`lemma_ws_run_len`].
pub proof fn lemma_word_run_len(t: Seq<char>, i: int)
    requires
        0 <= i <= t.len(),
    ensures
        0 <= word_run_len(t, i),
        i + word_run_len(t, i) <= t.len(),
        forall|k: int| i <= k < i + word_run_len(t, i) ==> is_word_char(t[k]),
        i + word_run_len(t, i) < t.len() ==> !is_word_char(t[i + word_run_len(t, i)]),
    decreases t.len() - i,
{
    if 0 <= i < t.len() && is_word_char(t[i]) {
        lemma_word_run_len(t, i + 1);
    }
}

/// Executable count of the ASCII-word-character run starting at `i`.
pub fn word_run(t: &Vec<char>, i: usize) -> (n: usize)
    requires
        i <= t@.len(),
    ensures
        n == word_run_len(t@, i as int),
        i + n <= t@.len(),
{
    let mut j: usize = i;
    while j < t.len() && is_word(t[j])
        invariant
            i <= j <= t@.len(),
            word_run_len(t@, i as int) == (j - i) + word_run_len(t@, j as int),
        decreases t@.len() - j,
    {
        proof {
            assert(word_run_len(t@, j as int) == 1 + word_run_len(t@, j + 1));
        }
        j += 1;
    }
    j - i
}

/// The length of the ASCII-digit run starting at `i`.
pub open spec fn digit_run_len(t: Seq<char>, i: int) -> int
    decreases t.len() - i,
{
    if 0 <= i < t.len() && is_digit_char(t[i]) {
        1 + digit_run_len(t, i + 1)
    } else {
        0
    }
}

/// A digit run is well formed, like [`lemma_ws_run_len`].
pub proof fn lemma_digit_run_len(t: Seq<char>, i: int)
    requires
        0 <= i <= t.len(),
    ensures
        0 <= digit_run_len(t, i),
        i + digit_run_len(t, i) <= t.len(),
        forall|k: int| i <= k < i + digit_run_len(t, i) ==> is_digit_char(t[k]),
        i + digit_run_len(t, i) < t.len() ==> !is_digit_char(t[i + digit_run_len(t, i)]),
    decreases t.len() - i,
{
    if 0 <= i < t.len() && is_digit_char(t[i]) {
        lemma_digit_run_len(t, i + 1);
    }
}

/// Executable count of the ASCII-digit run starting at `i`.
pub fn digit_run(t: &Vec<char>, i: usize) -> (n: usize)
    requires
        i <= t@.len(),
    ensures
        n == digit_run_len(t@, i as int),
        i + n <= t@.len(),
{
    let mut j: usize = i;
    while j < t.len() && is_digit(t[j])
        invariant
            i <= j <= t@.len(),
            digit_run_len(t@, i as int) == (j - i) + digit_run_len(t@, j as int),
        decreases t@.len() - j,
    {
        proof {
            assert(digit_run_len(t@, j as int) == 1 + digit_run_len(t@, j + 1));
        }
        j += 1;
    }
    j - i
}

/// The length of the whitespace run that ends just before position `i`,
/// scanning backwards.
pub open spec fn ws_run_rev(t: Seq<char>, i: int) -> int
    decreases i,
{
    if 0 < i <= t.len() && is_whitespace_char(t[i - 1]) {
        1 + ws_run_rev(t, i - 1)
    } else {
        0
    }
}

pub proof fn lemma_ws_run_rev(t: Seq<char>, i: int)
    requires
        0 <= i <= t.len(),
    ensures
        0 <= ws_run_rev(t, i) <= i,
        forall|k: int| i - ws_run_rev(t, i) <= k < i ==> is_whitespace_char(t[k]),
        i - ws_run_rev(t, i) > 0 ==> !is_whitespace_char(t[i - ws_run_rev(t, i) - 1]),
    decreases i,
{
    if 0 < i && is_whitespace_char(t[i - 1]) {
        lemma_ws_run_rev(t, i - 1);
    }
}

/// The text with leading and trailing whitespace removed, as `str::trim`
/// leaves it.
pub open spec fn trim_spec(t: Seq<char>) -> Seq<char> {
    let a = ws_run_len(t, 0);
    if a == t.len() {
        Seq::empty()
    } else {
        t.subrange(a, t.len() - ws_run_rev(t, t.len() as int))
    }
}

/// The bounds of the trimmed text inside `t`: `trim_spec(t@)` is
/// `t@.subrange(lo, hi)`.
pub fn trim_bounds(t: &Vec<char>) -> (r: (usize, usize))
    ensures
        r.0 <= r.1 <= t@.len(),
        trim_spec(t@) == t@.subrange(r.0 as int, r.1 as int),
{
    let a = ws_run(t, 0);
    if a == t.len() {
        proof {
            assert(t@.subrange(a as int, a as int) =~= Seq::<char>::empty());
        }
        return (a, a);
    }
    let mut b: usize = t.len();
    while b > 0 && is_ws(t[b - 1])
        invariant
            0 <= b <= t@.len(),
            ws_run_rev(t@, t@.len() as int) == (t@.len() - b) + ws_run_rev(t@, b as int),
        decreases b,
    {
        proof {
            assert(ws_run_rev(t@, b as int) == 1 + ws_run_rev(t@, b - 1));
        }
        b -= 1;
    }
    proof {
        lemma_ws_run_len(t@, 0);
        assert(ws_run_rev(t@, b as int) == 0);
        assert(ws_run_rev(t@, t@.len() as int) == t@.len() - b);
        lemma_ws_run_rev(t@, t@.len() as int);
        // the first non-whitespace character bounds the trailing whitespace run
        assert(!is_whitespace_char(t@[a as int]));
        if b <= a {
            assert(is_whitespace_char(t@[a as int]));
        }
    }
    (a, b)
}

/// A copy of the trimmed text.
pub fn trim_chars(t: &Vec<char>) -> (r: Vec<char>)
    ensures
        r@ == trim_spec(t@),
{
    let (lo, hi) = trim_bounds(t);
    subvec(t, lo, hi)
}

/// The decimal digit character for `d`.
pub open spec fn digit_char(d: int) -> char {
    if d == 0 {
        '0'
    } else if d == 1 {
        '1'
    } else if d == 2 {
        '2'
    } else if d == 3 {
        '3'
    } else if d == 4 {
        '4'
    } else if d == 5 {
        '5'
    } else if d == 6 {
        '6'
    } else if d == 7 {
        '7'
    } else if d == 8 {
        '8'
    } else {
        '9'
    }
}

/// The decimal representation of `n >= 0`, without leading zeros
/// (`0` is written as one digit).
pub open spec fn dec_str(n: int) -> Seq<char>
    decreases n,
{
    if n < 10 {
        seq![digit_char(n)]
    } else {
        dec_str(n / 10) + seq![digit_char(n % 10)]
    }
}

fn digit_of(d: u128) -> (c: char)
    requires
        d < 10,
    ensures
        c == digit_char(d as int),
{
    if d == 0 {
        '0'
    } else if d == 1 {
        '1'
    } else if d == 2 {
        '2'
    } else if d == 3 {
        '3'
    } else if d == 4 {
        '4'
    } else if d == 5 {
        '5'
    } else if d == 6 {
        '6'
    } else if d == 7 {
        '7'
    } else if d == 8 {
        '8'
    } else {
        '9'
    }
}

/// Appends the decimal representation of `n` to `out`.
pub fn append_dec(out: &mut Vec<char>, n: u128)
    ensures
        final(out)@ == old(out)@ + dec_str(n as int),
    decreases n,
{
    if n < 10 {
        out.push(digit_of(n));
    } else {
        append_dec(out, n / 10);
        out.push(digit_of(n % 10));
    }
    proof {
        assert(out@ =~= old(out)@ + dec_str(n as int));
    }
}

} // verus!
