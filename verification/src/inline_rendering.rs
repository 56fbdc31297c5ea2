//! Inline markdown rendering: bold, italic, bold+italic, strikethrough,
//! inline code and links.
//!
//! The transformer applies an ordered list of single-pass, non-greedy
//! substitutions to the text.  Each pass scans the already-substituted
//! result of the previous passes from left to right; at every position it
//! either recognises a complete span (an opening delimiter, the shortest
//! non-empty stretch of content, and a closing delimiter) and replaces it,
//! or copies one character and moves on.  An emphasis delimiter is a
//! maximal marker run of exactly the pass's length — `**` is a bold
//! delimiter, but the first two stars of `***` are not — so a pass never
//! tears apart the markers of a wider construct, and the marker-visible
//! variant never re-styles the punctuation it has already wrapped.  There
//! are two variants: a marker-hidden one that replaces the markdown
//! punctuation with semantic tags only, and a marker-visible one that
//! keeps the original punctuation inside the tags, for an editing
//! overlay.

use vstd::prelude::*;

use crate::text::{append_range, append_str, check_at, chars_to_string, find_char,
    find_char_from, starts_with_at, to_chars};

verus! {

/// The position of the closing delimiter for a span whose content starts at
/// `j`: the first position at or after `j` where `d` occurs, provided every
/// content character before it is allowed (not `excl`).  `None` when the
/// content runs into an excluded character or the end of the text first.
pub open spec fn find_close_from(t: Seq<char>, d: Seq<char>, excl: char, j: int) -> Option<int>
    decreases t.len() - j,
{
    if starts_with_at(t, d, j) {
        Some(j)
    } else if j < 0 || j >= t.len() {
        None
    } else if t[j] == excl {
        None
    } else {
        find_close_from(t, d, excl, j + 1)
    }
}

/// Bounds of a [`find_close_from`] answer.
pub proof fn lemma_find_close_from(t: Seq<char>, d: Seq<char>, excl: char, j: int)
    requires
        0 <= j,
    ensures
        find_close_from(t, d, excl, j) matches Some(e) ==> j <= e && e + d.len() <= t.len(),
    decreases t.len() - j,
{
    if !starts_with_at(t, d, j) && 0 <= j < t.len() && t[j] != excl {
        lemma_find_close_from(t, d, excl, j + 1);
    }
}

/// One delimiter substitution pass over `t`, from position `i` on.
///
/// At each position: if the delimiter `d` opens a span there — the shortest
/// non-empty stretch of characters other than `excl`, closed by `d` again —
/// the span is replaced by `pre`, the stretch, and `suf`; otherwise one
/// character is copied.  Replaced spans are never rescanned.
pub open spec fn delim_pass_from(
    t: Seq<char>,
    d: Seq<char>,
    excl: char,
    pre: Seq<char>,
    suf: Seq<char>,
    i: int,
) -> Seq<char>
    decreases t.len() - i,
    via delim_pass_decreases
{
    if i < 0 || i >= t.len() {
        Seq::empty()
    } else if starts_with_at(t, d, i) && i + d.len() < t.len() && t[i + d.len()] != excl
        && find_close_from(t, d, excl, i + d.len() + 1) is Some {
        let e = find_close_from(t, d, excl, i + d.len() + 1)->0;
        pre + t.subrange(i + d.len(), e) + suf + delim_pass_from(t, d, excl, pre, suf, e + d.len())
    } else {
        seq![t[i]] + delim_pass_from(t, d, excl, pre, suf, i + 1)
    }
}

#[via_fn]
proof fn delim_pass_decreases(
    t: Seq<char>,
    d: Seq<char>,
    excl: char,
    pre: Seq<char>,
    suf: Seq<char>,
    i: int,
) {
    if 0 <= i < t.len() && starts_with_at(t, d, i) && i + d.len() < t.len()
        && t[i + d.len()] != excl && find_close_from(t, d, excl, i + d.len() + 1) is Some {
        lemma_find_close_from(t, d, excl, i + d.len() + 1);
    }
}

/// A whole delimiter substitution pass.
pub open spec fn delim_pass(
    t: Seq<char>,
    d: Seq<char>,
    excl: char,
    pre: Seq<char>,
    suf: Seq<char>,
) -> Seq<char> {
    delim_pass_from(t, d, excl, pre, suf, 0)
}

/// Executable search for [`find_close_from`].
fn find_close(t: &Vec<char>, d: &Vec<char>, excl: char, from: usize) -> (r: Option<usize>)
    requires
        d@.len() >= 1,
    ensures
        match r {
            Some(e) => find_close_from(t@, d@, excl, from as int) == Some(e as int),
            None => find_close_from(t@, d@, excl, from as int) is None,
        },
{
    let mut j: usize = from;
    while j < t.len()
        invariant
            from <= j,
            find_close_from(t@, d@, excl, from as int) == find_close_from(
                t@,
                d@,
                excl,
                j as int,
            ),
        decreases t@.len() - j,
    {
        if check_at(t, d, j) {
            return Some(j);
        }
        if t[j] == excl {
            return None;
        }
        j += 1;
    }
    proof {
        assert(!starts_with_at(t@, d@, j as int));
    }
    None
}

/// One executable delimiter substitution pass, the whole text.
#[verifier::rlimit(60)]
#[verifier::spinoff_prover]
fn delim_pass_exec(
    t: &Vec<char>,
    d: &Vec<char>,
    excl: char,
    pre: &Vec<char>,
    suf: &Vec<char>,
) -> (r: Vec<char>)
    requires
        d@.len() >= 1,
    ensures
        r@ == delim_pass(t@, d@, excl, pre@, suf@),
{
    let mut out: Vec<char> = Vec::new();
    let mut i: usize = 0;
    while i < t.len()
        invariant
            d@.len() >= 1,
            i <= t@.len(),
            delim_pass(t@, d@, excl, pre@, suf@) == out@ + delim_pass_from(
                t@,
                d@,
                excl,
                pre@,
                suf@,
                i as int,
            ),
        decreases t@.len() - i,
    {
        let ghost prev = out@;
        let ghost gi = i as int;
        let mut advanced = false;
        if check_at(t, d, i) {
            let idn = i + d.len();
            if idn < t.len() && t[idn] != excl {
                match find_close(t, d, excl, idn + 1) {
                    Some(e) => {
                        proof {
                            lemma_find_close_from(t@, d@, excl, idn + 1);
                        }
                        append_range(&mut out, pre, 0, pre.len());
                        append_range(&mut out, t, idn, e);
                        append_range(&mut out, suf, 0, suf.len());
                        proof {
                            assert(pre@.subrange(0, pre@.len() as int) =~= pre@);
                            assert(suf@.subrange(0, suf@.len() as int) =~= suf@);
                            assert(delim_pass_from(t@, d@, excl, pre@, suf@, gi) == pre@
                                + t@.subrange(gi + d@.len(), e as int) + suf@ + delim_pass_from(
                                t@,
                                d@,
                                excl,
                                pre@,
                                suf@,
                                e + d@.len(),
                            ));
                            assert(out@ =~= prev + pre@ + t@.subrange(gi + d@.len(), e as int)
                                + suf@);
                            assert(out@ + delim_pass_from(t@, d@, excl, pre@, suf@, e + d@.len())
                                =~= prev + delim_pass_from(t@, d@, excl, pre@, suf@, gi));
                        }
                        i = e + d.len();
                        advanced = true;
                    },
                    None => {
                    },
                }
            }
        }
        if !advanced {
            out.push(t[i]);
            proof {
                assert(delim_pass_from(t@, d@, excl, pre@, suf@, gi) == seq![t@[gi]]
                    + delim_pass_from(t@, d@, excl, pre@, suf@, gi + 1));
                assert(out@ =~= prev + seq![t@[gi]]);
                assert(out@ + delim_pass_from(t@, d@, excl, pre@, suf@, gi + 1) =~= prev
                    + delim_pass_from(t@, d@, excl, pre@, suf@, gi));
            }
            i += 1;
        }
    }
    proof {
        assert(delim_pass_from(t@, d@, excl, pre@, suf@, i as int) =~= Seq::<char>::empty());
        assert(out@ =~= out@ + Seq::<char>::empty());
    }
    out
}

/// The link substitution pass, from position `i` on: `[text](url)` becomes
/// an anchor whose `href` is the url.  The link text is the shortest
/// non-empty stretch before the first `]`, the url the shortest non-empty
/// stretch before the first `)`.  In the marker-visible variant the anchor
/// wraps the original `[text](url)` punctuation; otherwise it wraps the
/// text alone.
pub open spec fn link_pass_from(t: Seq<char>, markers: bool, i: int) -> Seq<char>
    decreases t.len() - i,
    via link_pass_decreases
{
    if i < 0 || i >= t.len() {
        Seq::empty()
    } else if t[i] == '[' && link_match_at(t, i) is Some {
        let (a, b) = link_match_at(t, i)->0;
        let txt = t.subrange(i + 1, a);
        let url = t.subrange(a + 2, b);
        let body = if markers {
            Seq::empty() + "["@ + txt + "]("@ + url + ")"@
        } else {
            txt
        };
        "<a href=\""@ + url + "\">"@ + body + "</a>"@ + link_pass_from(t, markers, b + 1)
    } else {
        seq![t[i]] + link_pass_from(t, markers, i + 1)
    }
}

/// The bracket and parenthesis positions `(a, b)` of a link starting at
/// `i`: `t[i] == '['`, `a` is the first `]` after a non-empty text,
/// `t[a+1] == '('`, and `b` is the first `)` after a non-empty url.
pub open spec fn link_match_at(t: Seq<char>, i: int) -> Option<(int, int)> {
    match find_char_from(t, ']', i + 1) {
        Some(a) => if a > i + 1 && a + 1 < t.len() && t[a + 1] == '(' {
            match find_char_from(t, ')', a + 2) {
                Some(b) => if b > a + 2 {
                    Some((a, b))
                } else {
                    None
                },
                None => None,
            }
        } else {
            None
        },
        None => None,
    }
}

#[via_fn]
proof fn link_pass_decreases(t: Seq<char>, markers: bool, i: int) {
    if 0 <= i < t.len() && t[i] == '[' && link_match_at(t, i) is Some {
        crate::text::lemma_find_char_from(t, ']', i + 1);
        let a = find_char_from(t, ']', i + 1)->0;
        crate::text::lemma_find_char_from(t, ')', a + 2);
    }
}

/// A whole link substitution pass.
pub open spec fn link_pass(t: Seq<char>, markers: bool) -> Seq<char> {
    link_pass_from(t, markers, 0)
}

/// One executable link substitution pass, the whole text.
#[verifier::rlimit(60)]
#[verifier::spinoff_prover]
fn link_pass_exec(t: &Vec<char>, markers: bool) -> (r: Vec<char>)
    ensures
        r@ == link_pass(t@, markers),
{
    let mut out: Vec<char> = Vec::new();
    let mut i: usize = 0;
    while i < t.len()
        invariant
            i <= t@.len(),
            link_pass(t@, markers) == out@ + link_pass_from(t@, markers, i as int),
        decreases t@.len() - i,
    {
        let ghost prev = out@;
        let ghost gi = i as int;
        let mut advanced = false;
        if t[i] == '[' {
            if let Some(a) = find_char(t, ']', i + 1) {
                proof {
                    crate::text::lemma_find_char_from(t@, ']', i + 1);
                }
                if a > i + 1 && a + 1 < t.len() && t[a + 1] == '(' {
                    if let Some(b) = find_char(t, ')', a + 2) {
                        proof {
                            crate::text::lemma_find_char_from(t@, ')', a + 2);
                        }
                        if b > a + 2 {
                            proof {
                                assert(link_match_at(t@, gi) == Some((a as int, b as int)));
                            }
                            append_str(&mut out, "<a href=\"");
                            append_range(&mut out, t, a + 2, b);
                            append_str(&mut out, "\">");
                            if markers {
                                append_str(&mut out, "[");
                                append_range(&mut out, t, i + 1, a);
                                append_str(&mut out, "](");
                                append_range(&mut out, t, a + 2, b);
                                append_str(&mut out, ")");
                            } else {
                                append_range(&mut out, t, i + 1, a);
                            }
                            append_str(&mut out, "</a>");
                            proof {
                                let txt = t@.subrange(gi + 1, a as int);
                                let url = t@.subrange(a + 2, b as int);
                                let body: Seq<char> = if markers {
                                    Seq::empty() + "["@ + txt + "]("@ + url + ")"@
                                } else {
                                    txt
                                };
                                assert(link_pass_from(t@, markers, gi) == "<a href=\""@ + url
                                    + "\">"@ + body + "</a>"@ + link_pass_from(
                                    t@,
                                    markers,
                                    b + 1,
                                ));
                                assert(out@ =~= prev + ("<a href=\""@ + url + "\">"@ + body
                                    + "</a>"@));
                                assert(out@ + link_pass_from(t@, markers, b + 1) =~= prev
                                    + link_pass_from(t@, markers, gi));
                            }
                            i = b + 1;
                            advanced = true;
                        }
                    }
                }
            }
        }
        if !advanced {
            proof {
                if t@[gi] == '[' {
                    assert(link_match_at(t@, gi) is None);
                }
                assert(link_pass_from(t@, markers, gi) == seq![t@[gi]] + link_pass_from(
                    t@,
                    markers,
                    gi + 1,
                ));
            }
            out.push(t[i]);
            proof {
                assert(out@ =~= prev + seq![t@[gi]]);
                assert(out@ + link_pass_from(t@, markers, gi + 1) =~= prev + link_pass_from(
                    t@,
                    markers,
                    gi,
                ));
            }
            i += 1;
        }
    }
    proof {
        assert(link_pass_from(t@, markers, i as int) =~= Seq::<char>::empty());
        assert(out@ =~= out@ + Seq::<char>::empty());
    }
    out
}


/// A maximal marker run of exactly length `l` at position `i`: `l` copies
/// of `m`, not preceded and not followed by another `m`.
pub open spec fn exact_run_at(t: Seq<char>, m: char, l: int, i: int) -> bool {
    &&& 0 <= i
    &&& i + l <= t.len()
    &&& forall|k: int| 0 <= k < l ==> #[trigger] t[i + k] == m
    &&& (i == 0 || t[i - 1] != m)
    &&& (i + l == t.len() || t[i + l] != m)
}

/// Executable check for [`exact_run_at`].
fn exact_run_check(t: &Vec<char>, m: char, l: usize, i: usize) -> (b: bool)
    ensures
        b == exact_run_at(t@, m, l as int, i as int),
{
    let sz = t.len();
    if i > sz || l > sz - i {
        return false;
    }
    for k in 0..l
        invariant
            i + l <= sz,
            sz == t@.len(),
            forall|j: int| 0 <= j < k ==> #[trigger] t@[i + j] == m,
    {
        if t[i + k] != m {
            return false;
        }
    }
    if i > 0 && t[i - 1] == m {
        return false;
    }
    if i + l < sz && t[i + l] == m {
        return false;
    }
    true
}

/// The closing delimiter position for an emphasis span whose content
/// starts at `j`: the first exact marker run at or after `j`, provided no
/// line break stands before it.
pub open spec fn find_emph_close(t: Seq<char>, m: char, l: int, j: int) -> Option<int>
    decreases t.len() - j,
{
    if exact_run_at(t, m, l, j) {
        Some(j)
    } else if j < 0 || j >= t.len() {
        None
    } else if t[j] == '\n' {
        None
    } else {
        find_emph_close(t, m, l, j + 1)
    }
}

/// Bounds of a [`find_emph_close`] answer.
pub proof fn lemma_find_emph_close(t: Seq<char>, m: char, l: int, j: int)
    requires
        0 <= j,
    ensures
        find_emph_close(t, m, l, j) matches Some(e) ==> j <= e && e + l <= t.len(),
    decreases t.len() - j,
{
    if !exact_run_at(t, m, l, j) && 0 <= j < t.len() && t[j] != '\n' {
        lemma_find_emph_close(t, m, l, j + 1);
    }
}

/// One emphasis substitution pass over `t`, from position `i` on.
///
/// At each position: if an exact marker run of length `l` opens a span
/// there — the shortest non-empty stretch of characters free of line
/// breaks, closed by another exact run — the span is replaced by `pre`,
/// the stretch, and `suf`; otherwise one character is copied.  Replaced
/// spans are never rescanned.
pub open spec fn emph_pass_from(
    t: Seq<char>,
    m: char,
    l: int,
    pre: Seq<char>,
    suf: Seq<char>,
    i: int,
) -> Seq<char>
    decreases t.len() - i,
    via emph_pass_decreases
{
    if i < 0 || i >= t.len() {
        Seq::empty()
    } else if 1 <= l && exact_run_at(t, m, l, i) && i + l < t.len() && t[i + l] != '\n'
        && find_emph_close(t, m, l, i + l + 1) is Some {
        let e = find_emph_close(t, m, l, i + l + 1)->0;
        pre + t.subrange(i + l, e) + suf + emph_pass_from(t, m, l, pre, suf, e + l)
    } else {
        seq![t[i]] + emph_pass_from(t, m, l, pre, suf, i + 1)
    }
}

#[via_fn]
proof fn emph_pass_decreases(t: Seq<char>, m: char, l: int, pre: Seq<char>, suf: Seq<char>, i: int) {
    if 0 <= i < t.len() && 1 <= l && exact_run_at(t, m, l, i) && i + l < t.len()
        && t[i + l] != '\n' && find_emph_close(t, m, l, i + l + 1) is Some {
        lemma_find_emph_close(t, m, l, i + l + 1);
    }
}

/// A whole emphasis substitution pass.
pub open spec fn emph_pass(t: Seq<char>, m: char, l: int, pre: Seq<char>, suf: Seq<char>) -> Seq<
    char,
> {
    emph_pass_from(t, m, l, pre, suf, 0)
}

/// Executable search for [`find_emph_close`].
fn find_emph_close_exec(t: &Vec<char>, m: char, l: usize, from: usize) -> (r: Option<usize>)
    requires
        l >= 1,
    ensures
        match r {
            Some(e) => find_emph_close(t@, m, l as int, from as int) == Some(e as int),
            None => find_emph_close(t@, m, l as int, from as int) is None,
        },
{
    let mut j: usize = from;
    while j < t.len()
        invariant
            from <= j,
            find_emph_close(t@, m, l as int, from as int) == find_emph_close(
                t@,
                m,
                l as int,
                j as int,
            ),
        decreases t@.len() - j,
    {
        if exact_run_check(t, m, l, j) {
            return Some(j);
        }
        if t[j] == '\n' {
            return None;
        }
        j += 1;
    }
    proof {
        assert(!exact_run_at(t@, m, l as int, j as int));
    }
    None
}

/// One executable emphasis substitution pass, the whole text.
#[verifier::rlimit(60)]
#[verifier::spinoff_prover]
fn emph_pass_exec(t: &Vec<char>, m: char, l: usize, pre: &Vec<char>, suf: &Vec<char>) -> (r: Vec<
    char,
>)
    requires
        l >= 1,
    ensures
        r@ == emph_pass(t@, m, l as int, pre@, suf@),
{
    let mut out: Vec<char> = Vec::new();
    let mut i: usize = 0;
    while i < t.len()
        invariant
            l >= 1,
            i <= t@.len(),
            emph_pass(t@, m, l as int, pre@, suf@) == out@ + emph_pass_from(
                t@,
                m,
                l as int,
                pre@,
                suf@,
                i as int,
            ),
        decreases t@.len() - i,
    {
        let ghost prev = out@;
        let ghost gi = i as int;
        let mut advanced = false;
        if exact_run_check(t, m, l, i) {
            let idn = i + l;
            if idn < t.len() && t[idn] != '\n' {
                match find_emph_close_exec(t, m, l, idn + 1) {
                    Some(e) => {
                        proof {
                            lemma_find_emph_close(t@, m, l as int, idn + 1);
                        }
                        append_range(&mut out, pre, 0, pre.len());
                        append_range(&mut out, t, idn, e);
                        append_range(&mut out, suf, 0, suf.len());
                        proof {
                            assert(pre@.subrange(0, pre@.len() as int) =~= pre@);
                            assert(suf@.subrange(0, suf@.len() as int) =~= suf@);
                            assert(emph_pass_from(t@, m, l as int, pre@, suf@, gi) == pre@
                                + t@.subrange(gi + l, e as int) + suf@ + emph_pass_from(
                                t@,
                                m,
                                l as int,
                                pre@,
                                suf@,
                                e + l,
                            ));
                            assert(out@ =~= prev + pre@ + t@.subrange(gi + l, e as int) + suf@);
                            assert(out@ + emph_pass_from(t@, m, l as int, pre@, suf@, e + l) =~=
                                prev + emph_pass_from(t@, m, l as int, pre@, suf@, gi));
                        }
                        i = e + l;
                        advanced = true;
                    },
                    None => {
                    },
                }
            }
        }
        if !advanced {
            out.push(t[i]);
            proof {
                assert(emph_pass_from(t@, m, l as int, pre@, suf@, gi) == seq![t@[gi]]
                    + emph_pass_from(t@, m, l as int, pre@, suf@, gi + 1));
                assert(out@ =~= prev + seq![t@[gi]]);
                assert(out@ + emph_pass_from(t@, m, l as int, pre@, suf@, gi + 1) =~= prev
                    + emph_pass_from(t@, m, l as int, pre@, suf@, gi));
            }
            i += 1;
        }
    }
    proof {
        assert(emph_pass_from(t@, m, l as int, pre@, suf@, i as int) =~= Seq::<char>::empty());
        assert(out@ =~= out@ + Seq::<char>::empty());
    }
    out
}

/// The marker-hidden inline transformation: the ordered substitutions for
/// bold+italic, bold, italic, strikethrough, inline code and links, each
/// pass scanning the result of the previous one.
pub open spec fn inline_hidden_spec(s: Seq<char>) -> Seq<char> {
    let s1 = emph_pass(s, '*', 3, "<strong><em>"@, "</em></strong>"@);
    let s2 = emph_pass(s1, '*', 2, "<strong>"@, "</strong>"@);
    let s3 = emph_pass(s2, '_', 2, "<strong>"@, "</strong>"@);
    let s4 = emph_pass(s3, '*', 1, "<em>"@, "</em>"@);
    let s5 = emph_pass(s4, '_', 1, "<em>"@, "</em>"@);
    let s6 = emph_pass(s5, '~', 2, "<del>"@, "</del>"@);
    let s7 = delim_pass(s6, "`"@, '`', "<code>"@, "</code>"@);
    link_pass(s7, false)
}

/// The marker-visible inline transformation: the same passes, with the
/// original punctuation kept inside the tags.
pub open spec fn inline_markers_spec(s: Seq<char>) -> Seq<char> {
    let s1 = emph_pass(s, '*', 3, "<strong><em>***"@, "***</em></strong>"@);
    let s2 = emph_pass(s1, '*', 2, "<strong>**"@, "**</strong>"@);
    let s3 = emph_pass(s2, '_', 2, "<strong>__"@, "__</strong>"@);
    let s4 = emph_pass(s3, '*', 1, "<em>*"@, "*</em>"@);
    let s5 = emph_pass(s4, '_', 1, "<em>_"@, "_</em>"@);
    let s6 = emph_pass(s5, '~', 2, "<del>~~"@, "~~</del>"@);
    let s7 = delim_pass(s6, "`"@, '`', "<code>`"@, "`</code>"@);
    link_pass(s7, true)
}

/// Render inline markdown (bold, italic, code, links, etc.), replacing the
/// markdown punctuation with semantic HTML tags.
pub fn render_inline_markdown(text: &str) -> (r: String)
    ensures
        r@ == inline_hidden_spec(text@),
{
    let cs = to_chars(text);
    let out = inline_hidden_chars(&cs);
    chars_to_string(&out)
}

/// The marker-hidden transformation on a character vector.
pub fn inline_hidden_chars(cs: &Vec<char>) -> (r: Vec<char>)
    ensures
        r@ == inline_hidden_spec(cs@),
{
    proof {
        reveal_strlit("`");
    }
    let s1 = emph_pass_exec(cs, '*', 3, &to_chars("<strong><em>"), &to_chars("</em></strong>"));
    let s2 = emph_pass_exec(&s1, '*', 2, &to_chars("<strong>"), &to_chars("</strong>"));
    let s3 = emph_pass_exec(&s2, '_', 2, &to_chars("<strong>"), &to_chars("</strong>"));
    let s4 = emph_pass_exec(&s3, '*', 1, &to_chars("<em>"), &to_chars("</em>"));
    let s5 = emph_pass_exec(&s4, '_', 1, &to_chars("<em>"), &to_chars("</em>"));
    let s6 = emph_pass_exec(&s5, '~', 2, &to_chars("<del>"), &to_chars("</del>"));
    let s7 = delim_pass_exec(&s6, &to_chars("`"), '`', &to_chars("<code>"), &to_chars("</code>"));
    link_pass_exec(&s7, false)
}

/// Render inline markdown with the markers kept visible, for editing mode.
pub fn render_inline_markdown_with_markers(text: &str) -> (r: String)
    ensures
        r@ == inline_markers_spec(text@),
{
    let cs = to_chars(text);
    let out = inline_markers_chars(&cs);
    chars_to_string(&out)
}

/// The marker-visible transformation on a character vector.
pub fn inline_markers_chars(cs: &Vec<char>) -> (r: Vec<char>)
    ensures
        r@ == inline_markers_spec(cs@),
{
    proof {
        reveal_strlit("`");
    }
    let s1 = emph_pass_exec(cs, '*', 3, &to_chars("<strong><em>***"), &to_chars("***</em></strong>"));
    let s2 = emph_pass_exec(&s1, '*', 2, &to_chars("<strong>**"), &to_chars("**</strong>"));
    let s3 = emph_pass_exec(&s2, '_', 2, &to_chars("<strong>__"), &to_chars("__</strong>"));
    let s4 = emph_pass_exec(&s3, '*', 1, &to_chars("<em>*"), &to_chars("*</em>"));
    let s5 = emph_pass_exec(&s4, '_', 1, &to_chars("<em>_"), &to_chars("_</em>"));
    let s6 = emph_pass_exec(&s5, '~', 2, &to_chars("<del>~~"), &to_chars("~~</del>"));
    let s7 = delim_pass_exec(&s6, &to_chars("`"), '`', &to_chars("<code>`"), &to_chars("`</code>"));
    link_pass_exec(&s7, true)
}


/// [`find_emph_close`] lands on `e` when no exact run and no line break
/// stands before it.
proof fn lemma_emph_close_skips(t: Seq<char>, m: char, l: int, j: int, e: int)
    requires
        l >= 1,
        0 <= j <= e,
        exact_run_at(t, m, l, e),
        forall|k: int| j <= k < e ==> !(#[trigger] exact_run_at(t, m, l, k)) && t[k] != '\n',
    ensures
        find_emph_close(t, m, l, j) == Some(e),
    decreases e - j,
{
    assert(e + l <= t.len());
    if j < e {
        assert(!exact_run_at(t, m, l, j));
        assert(t[j] != '\n');
        assert(j < t.len());
        lemma_emph_close_skips(t, m, l, j + 1, e);
        assert(find_emph_close(t, m, l, j) == find_emph_close(t, m, l, j + 1));
    }
}

/// An emphasis pass copies the text unchanged where no exact marker run
/// occurs.
proof fn lemma_emph_pass_skip_all(t: Seq<char>, m: char, l: int, pre: Seq<char>, suf: Seq<char>, i: int)
    requires
        0 <= i <= t.len(),
        forall|k: int| i <= k < t.len() ==> !exact_run_at(t, m, l, k),
    ensures
        emph_pass_from(t, m, l, pre, suf, i) == t.subrange(i, t.len() as int),
    decreases t.len() - i,
{
    if i == t.len() {
        assert(t.subrange(i, t.len() as int) =~= Seq::<char>::empty());
    } else {
        lemma_emph_pass_skip_all(t, m, l, pre, suf, i + 1);
        assert(t.subrange(i, t.len() as int) =~= seq![t[i]] + t.subrange(i + 1, t.len() as int));
    }
}

/// A delimiter pass copies the text unchanged where the delimiter's first
/// character never occurs.
proof fn lemma_delim_pass_skip_all(
    t: Seq<char>,
    d: Seq<char>,
    excl: char,
    pre: Seq<char>,
    suf: Seq<char>,
    i: int,
)
    requires
        0 <= i <= t.len(),
        d.len() >= 1,
        forall|k: int| i <= k < t.len() ==> t[k] != d[0],
    ensures
        delim_pass_from(t, d, excl, pre, suf, i) == t.subrange(i, t.len() as int),
    decreases t.len() - i,
{
    if i == t.len() {
        assert(t.subrange(i, t.len() as int) =~= Seq::<char>::empty());
    } else {
        if starts_with_at(t, d, i) {
            assert(t.subrange(i, i + d.len())[0] == t[i]);
            assert(false);
        }
        lemma_delim_pass_skip_all(t, d, excl, pre, suf, i + 1);
        assert(t.subrange(i, t.len() as int) =~= seq![t[i]] + t.subrange(i + 1, t.len() as int));
    }
}

/// The link pass copies the text unchanged where `[` never occurs.
proof fn lemma_link_pass_skip_all(t: Seq<char>, markers: bool, i: int)
    requires
        0 <= i <= t.len(),
        forall|k: int| i <= k < t.len() ==> t[k] != '[',
    ensures
        link_pass_from(t, markers, i) == t.subrange(i, t.len() as int),
    decreases t.len() - i,
{
    if i == t.len() {
        assert(t.subrange(i, t.len() as int) =~= Seq::<char>::empty());
    } else {
        lemma_link_pass_skip_all(t, markers, i + 1);
        assert(t.subrange(i, t.len() as int) =~= seq![t[i]] + t.subrange(i + 1, t.len() as int));
    }
}

/// An emphasis pass on exactly one whole span — an exact opening run, a
/// plain stretch, an exact closing run at the very end — wraps the stretch
/// once.
#[verifier::rlimit(100)]
#[verifier::spinoff_prover]
proof fn lemma_emph_pass_single(t: Seq<char>, m: char, l: int, pre: Seq<char>, suf: Seq<char>, x: Seq<char>)
    requires
        l >= 1,
        x.len() > 0,
        t.len() == x.len() + 2 * l,
        forall|k: int| 0 <= k < l ==> #[trigger] t[k] == m,
        forall|k: int| 0 <= k < x.len() ==> #[trigger] t[l + k] == x[k],
        forall|k: int| 0 <= k < x.len() ==> x[k] != m && x[k] != '\n',
        forall|k: int| x.len() + l <= k < t.len() ==> #[trigger] t[k] == m,
    ensures
        emph_pass_from(t, m, l, pre, suf, 0) == pre + x + suf,
{
    let e = l + x.len();
    assert(t[l + 0] == x[0]);
    assert(exact_run_at(t, m, l, 0));
    assert(t[l + (x.len() - 1)] == x[x.len() - 1]);
    assert(exact_run_at(t, m, l, e)) by {
        assert(forall|k: int| 0 <= k < l ==> #[trigger] t[e + k] == m);
        assert(t[e - 1] == x[x.len() - 1]);
    }
    assert forall|k: int|
        l + 1 <= k < e implies !(#[trigger] exact_run_at(t, m, l, k)) && t[k] != '\n' by {
        assert(t[l + (k - l)] == x[k - l]);
        if exact_run_at(t, m, l, k) {
            assert(t[k + 0] == m);
        }
    }
    lemma_emph_close_skips(t, m, l, l + 1, e);
    assert(find_emph_close(t, m, l, l + 1) == Some(e));
    assert(emph_pass_from(t, m, l, pre, suf, e + l) == Seq::<char>::empty());
    assert forall|k: int| 0 <= k < x.len() implies t.subrange(l, e)[k] == x[k] by {
        assert(t[l + k] == x[k]);
    }
    assert(t.subrange(l, e) =~= x);
    assert(emph_pass_from(t, m, l, pre, suf, 0) == pre + t.subrange(l, e) + suf
        + emph_pass_from(t, m, l, pre, suf, e + l));
    assert(pre + x + suf + Seq::<char>::empty() =~= pre + x + suf);
}

/// A stretch of plain inline text: non-empty, with no emphasis or code
/// markers, no link opener and no line break in it.
pub open spec fn plain_span_text(x: Seq<char>) -> bool {
    &&& x.len() > 0
    &&& forall|k: int|
        0 <= k < x.len() ==> ((#[trigger] x[k]) != '*' && x[k] != '_' && x[k] != '~' && x[k]
            != '`' && x[k] != '[' && x[k] != '\n')
}


/// An emphasis pass leaves text without its marker character unchanged.
proof fn lemma_emph_pass_absent(t: Seq<char>, m: char, l: int, pre: Seq<char>, suf: Seq<char>)
    requires
        l >= 1,
        forall|k: int| 0 <= k < t.len() ==> (#[trigger] t[k]) != m,
    ensures
        emph_pass(t, m, l, pre, suf) == t,
{
    assert forall|k: int| 0 <= k < t.len() implies !exact_run_at(t, m, l, k) by {
        if exact_run_at(t, m, l, k) {
            assert(t[k + 0] == m);
            assert(t[k] != m);
        }
    }
    lemma_emph_pass_skip_all(t, m, l, pre, suf, 0);
    assert(t.subrange(0, t.len() as int) =~= t);
}

/// The inline-code pass leaves text without a backtick unchanged.
proof fn lemma_code_pass_absent(t: Seq<char>, pre: Seq<char>, suf: Seq<char>)
    requires
        forall|k: int| 0 <= k < t.len() ==> (#[trigger] t[k]) != '`',
    ensures
        delim_pass(t, "`"@, '`', pre, suf) == t,
{
    reveal_strlit("`");
    lemma_delim_pass_skip_all(t, "`"@, '`', pre, suf, 0);
    assert(t.subrange(0, t.len() as int) =~= t);
}

/// The link pass leaves text without an opening bracket unchanged.
proof fn lemma_link_pass_absent(t: Seq<char>, markers: bool)
    requires
        forall|k: int| 0 <= k < t.len() ==> (#[trigger] t[k]) != '[',
    ensures
        link_pass(t, markers) == t,
{
    lemma_link_pass_skip_all(t, markers, 0);
    assert(t.subrange(0, t.len() as int) =~= t);
}

/// Characters absent from all three parts are absent from the
/// concatenation.
proof fn lemma_concat3_no_char(a: Seq<char>, x: Seq<char>, b: Seq<char>, c: char)
    requires
        forall|k: int| 0 <= k < a.len() ==> (#[trigger] a[k]) != c,
        forall|k: int| 0 <= k < x.len() ==> (#[trigger] x[k]) != c,
        forall|k: int| 0 <= k < b.len() ==> (#[trigger] b[k]) != c,
    ensures
        forall|k: int| 0 <= k < (a + x + b).len() ==> (#[trigger] (a + x + b)[k]) != c,
{
    assert forall|k: int| 0 <= k < (a + x + b).len() implies (a + x + b)[k] != c by {
        if k < a.len() {
            assert((a + x + b)[k] == a[k]);
        } else if k < a.len() + x.len() {
            assert((a + x + b)[k] == x[k - a.len()]);
        } else {
            assert((a + x + b)[k] == b[k - a.len() - x.len()]);
        }
    }
}

/// The parts of a three-way concatenation, read back by index.
proof fn lemma_concat3_index(a: Seq<char>, x: Seq<char>, b: Seq<char>)
    ensures
        (a + x + b).len() == a.len() + x.len() + b.len(),
        forall|k: int| 0 <= k < a.len() ==> (a + x + b)[k] == #[trigger] a[k],
        forall|k: int| 0 <= k < x.len() ==> (a + x + b)[a.len() + k] == #[trigger] x[k],
        forall|k: int| 0 <= k < b.len() ==> (a + x + b)[a.len() + x.len() + k] == #[trigger] b[k],
{
}


/// Strikethrough markers wrap the same way in both variants: the
/// marker-hidden output wraps the text in a `del` tag alone, and the
/// marker-visible output differs from it only by the literal `~~`
/// punctuation kept inside the tag.
#[verifier::rlimit(100)]
#[verifier::spinoff_prover]
pub proof fn lemma_marker_visibility_strike(x: Seq<char>)
    requires
        plain_span_text(x),
    ensures
        inline_hidden_spec("~~"@ + x + "~~"@) == "<del>"@ + x + "</del>"@,
        inline_markers_spec("~~"@ + x + "~~"@) == "<del>~~"@ + x + "~~</del>"@,
{
    reveal_strlit("~~");
    reveal_strlit("<del>");
    reveal_strlit("</del>");
    reveal_strlit("<del>~~");
    reveal_strlit("~~</del>");
    let a = "~~"@;
    let t = a + x + a;
    lemma_concat3_index(a, x, a);
    assert(a.len() == 2 && a[0] == '~' && a[1] == '~');
    assert forall|k: int| 0 <= k < a.len() implies ((#[trigger] a[k]) != '*' && a[k] != '_'
        && a[k] != '`' && a[k] != '[') by {}
    lemma_concat3_no_char(a, x, a, '*');
    lemma_concat3_no_char(a, x, a, '_');
    lemma_emph_pass_absent(t, '*', 3, "<strong><em>"@, "</em></strong>"@);
    lemma_emph_pass_absent(t, '*', 2, "<strong>"@, "</strong>"@);
    lemma_emph_pass_absent(t, '_', 2, "<strong>"@, "</strong>"@);
    lemma_emph_pass_absent(t, '*', 1, "<em>"@, "</em>"@);
    lemma_emph_pass_absent(t, '_', 1, "<em>"@, "</em>"@);
    lemma_emph_pass_absent(t, '*', 3, "<strong><em>***"@, "***</em></strong>"@);
    lemma_emph_pass_absent(t, '*', 2, "<strong>**"@, "**</strong>"@);
    lemma_emph_pass_absent(t, '_', 2, "<strong>__"@, "__</strong>"@);
    lemma_emph_pass_absent(t, '*', 1, "<em>*"@, "*</em>"@);
    lemma_emph_pass_absent(t, '_', 1, "<em>_"@, "_</em>"@);
    assert forall|k: int| 0 <= k < x.len() implies #[trigger] t[2 + k] == x[k] by {}
    assert forall|k: int| 0 <= k < 2 implies #[trigger] t[k] == '~' by {
        assert(t[k] == a[k]);
    }
    assert forall|k: int| x.len() + 2 <= k < t.len() implies #[trigger] t[k] == '~' by {
        assert(t[2 + x.len() + (k - 2 - x.len())] == a[k - 2 - x.len()]);
    }
    lemma_emph_pass_single(t, '~', 2, "<del>"@, "</del>"@, x);
    lemma_emph_pass_single(t, '~', 2, "<del>~~"@, "~~</del>"@, x);
    let s6h = "<del>"@ + x + "</del>"@;
    let s6m = "<del>~~"@ + x + "~~</del>"@;
    lemma_concat3_index("<del>"@, x, "</del>"@);
    lemma_concat3_index("<del>~~"@, x, "~~</del>"@);
    assert forall|k: int| 0 <= k < 5 implies ((#[trigger] "<del>"@[k]) != '`' && "<del>"@[k]
        != '[') by {}
    assert forall|k: int| 0 <= k < 6 implies ((#[trigger] "</del>"@[k]) != '`' && "</del>"@[k]
        != '[') by {}
    assert forall|k: int| 0 <= k < 7 implies ((#[trigger] "<del>~~"@[k]) != '`' && "<del>~~"@[k]
        != '[') by {}
    assert forall|k: int| 0 <= k < 8 implies ((#[trigger] "~~</del>"@[k]) != '`'
        && "~~</del>"@[k] != '[') by {}
    lemma_concat3_no_char("<del>"@, x, "</del>"@, '`');
    lemma_concat3_no_char("<del>"@, x, "</del>"@, '[');
    lemma_concat3_no_char("<del>~~"@, x, "~~</del>"@, '`');
    lemma_concat3_no_char("<del>~~"@, x, "~~</del>"@, '[');
    lemma_code_pass_absent(s6h, "<code>"@, "</code>"@);
    lemma_link_pass_absent(s6h, false);
    lemma_code_pass_absent(s6m, "<code>`"@, "`</code>"@);
    lemma_link_pass_absent(s6m, true);
    assert(inline_hidden_spec(t) == s6h);
    assert(inline_markers_spec(t) == s6m);
}


/// Marker visibility for a bold span: both variants wrap the text in the
/// same strong tag; they differ only by the literal `**` punctuation kept
/// inside the tag in the marker-visible variant.
#[verifier::rlimit(100)]
#[verifier::spinoff_prover]
pub proof fn lemma_marker_visibility_bold(x: Seq<char>)
    requires
        plain_span_text(x),
    ensures
        inline_hidden_spec("**"@ + x + "**"@) == "<strong>"@ + x + "</strong>"@,
        inline_markers_spec("**"@ + x + "**"@) == "<strong>**"@ + x + "**</strong>"@,
{
    reveal_strlit("**");
    reveal_strlit("<strong>");
    reveal_strlit("</strong>");
    reveal_strlit("<strong>**");
    reveal_strlit("**</strong>");
    let a = "**"@;
    let t = a + x + a;
    lemma_concat3_index(a, x, a);
    assert(a.len() == 2 && a[0] == '*' && a[1] == '*');
    assert forall|k: int| 0 <= k < 2 implies #[trigger] t[k] == '*' by {
        assert(t[k] == a[k]);
    }
    assert forall|k: int| 0 <= k < x.len() implies #[trigger] t[2 + k] == x[k] by {}
    assert forall|k: int| x.len() + 2 <= k < t.len() implies #[trigger] t[k] == '*' by {
        assert(t[2 + x.len() + (k - 2 - x.len())] == a[k - 2 - x.len()]);
    }
    // no run of three stars anywhere: the head passes leave t unchanged
    assert forall|i: int| 0 <= i < t.len() implies !exact_run_at(t, '*', 3, i) by {
        if exact_run_at(t, '*', 3, i) {
            if i < 2 {
                assert(t[i + (2 - i)] == '*');
                assert(t[2 + (0int)] == x[0int]);
            } else if i < 2 + x.len() {
                assert(t[i + 0] == '*');
                assert(t[2 + (i - 2)] == x[i - 2]);
            }
        }
    }
    lemma_emph_pass_skip_all(t, '*', 3, "<strong><em>"@, "</em></strong>"@, 0);
    lemma_emph_pass_skip_all(t, '*', 3, "<strong><em>***"@, "***</em></strong>"@, 0);
    assert(t.subrange(0, t.len() as int) =~= t);
    // the bold pass wraps the whole span, in both variants
    lemma_emph_pass_single(t, '*', 2, "<strong>"@, "</strong>"@, x);
    lemma_emph_pass_single(t, '*', 2, "<strong>**"@, "**</strong>"@, x);
    let s2h = "<strong>"@ + x + "</strong>"@;
    let s2m = "<strong>**"@ + x + "**</strong>"@;
    // the hidden output carries no marker of any later pass
    lemma_concat3_index("<strong>"@, x, "</strong>"@);
    assert forall|k: int| 0 <= k < 8 implies ((#[trigger] "<strong>"@[k]) != '*'
        && "<strong>"@[k] != '_' && "<strong>"@[k] != '~' && "<strong>"@[k] != '`'
        && "<strong>"@[k] != '[') by {}
    assert forall|k: int| 0 <= k < 9 implies ((#[trigger] "</strong>"@[k]) != '*'
        && "</strong>"@[k] != '_' && "</strong>"@[k] != '~' && "</strong>"@[k] != '`'
        && "</strong>"@[k] != '[') by {}
    lemma_concat3_no_char("<strong>"@, x, "</strong>"@, '_');
    lemma_concat3_no_char("<strong>"@, x, "</strong>"@, '*');
    lemma_concat3_no_char("<strong>"@, x, "</strong>"@, '~');
    lemma_concat3_no_char("<strong>"@, x, "</strong>"@, '`');
    lemma_concat3_no_char("<strong>"@, x, "</strong>"@, '[');
    lemma_emph_pass_absent(s2h, '_', 2, "<strong>"@, "</strong>"@);
    lemma_emph_pass_absent(s2h, '*', 1, "<em>"@, "</em>"@);
    lemma_emph_pass_absent(s2h, '_', 1, "<em>"@, "</em>"@);
    lemma_emph_pass_absent(s2h, '~', 2, "<del>"@, "</del>"@);
    lemma_code_pass_absent(s2h, "<code>"@, "</code>"@);
    lemma_link_pass_absent(s2h, false);
    assert(inline_hidden_spec(t) == s2h);
    // the marker-visible output keeps its doubled stars intact: no single
    // star stands alone, and no other marker occurs
    lemma_concat3_index("<strong>**"@, x, "**</strong>"@);
    assert forall|k: int| 0 <= k < 10 implies ((#[trigger] "<strong>**"@[k]) != '_'
        && "<strong>**"@[k] != '~' && "<strong>**"@[k] != '`' && "<strong>**"@[k] != '[') by {}
    assert forall|k: int| 0 <= k < 11 implies ((#[trigger] "**</strong>"@[k]) != '_'
        && "**</strong>"@[k] != '~' && "**</strong>"@[k] != '`' && "**</strong>"@[k] != '[')
        by {}
    lemma_concat3_no_char("<strong>**"@, x, "**</strong>"@, '_');
    lemma_concat3_no_char("<strong>**"@, x, "**</strong>"@, '~');
    lemma_concat3_no_char("<strong>**"@, x, "**</strong>"@, '`');
    lemma_concat3_no_char("<strong>**"@, x, "**</strong>"@, '[');
    assert forall|i: int| 0 <= i < s2m.len() implies !exact_run_at(s2m, '*', 1, i) by {
        if exact_run_at(s2m, '*', 1, i) {
            assert(s2m[i + 0] == '*');
            if i < 10 {
                assert(s2m[i] == "<strong>**"@[i]);
                if i == 8 {
                    assert(s2m[9] == "<strong>**"@[9]);
                } else if i == 9 {
                    assert(s2m[8] == "<strong>**"@[8]);
                }
            } else if i < 10 + x.len() {
                assert(s2m[10 + (i - 10)] == x[i - 10]);
            } else {
                let xl = x.len() as int;
                assert(s2m[10 + xl + (i - 10 - xl)] == "**</strong>"@[i - 10 - xl]);
                if i == 10 + xl {
                    assert(s2m[10 + xl + (1int)] == "**</strong>"@[1int]);
                } else if i == 11 + xl {
                    assert(s2m[10 + xl + (0int)] == "**</strong>"@[0int]);
                }
            }
        }
    }
    lemma_emph_pass_absent(s2m, '_', 2, "<strong>__"@, "__</strong>"@);
    lemma_emph_pass_skip_all(s2m, '*', 1, "<em>*"@, "*</em>"@, 0);
    assert(s2m.subrange(0, s2m.len() as int) =~= s2m);
    lemma_emph_pass_absent(s2m, '_', 1, "<em>_"@, "_</em>"@);
    lemma_emph_pass_absent(s2m, '~', 2, "<del>~~"@, "~~</del>"@);
    lemma_code_pass_absent(s2m, "<code>`"@, "`</code>"@);
    lemma_link_pass_absent(s2m, true);
    assert(inline_markers_spec(t) == s2m);
}


/// Marker visibility for an italic span, as in
/// [`lemma_marker_visibility_bold`].
#[verifier::rlimit(100)]
#[verifier::spinoff_prover]
pub proof fn lemma_marker_visibility_italic(x: Seq<char>)
    requires
        plain_span_text(x),
    ensures
        inline_hidden_spec("*"@ + x + "*"@) == "<em>"@ + x + "</em>"@,
        inline_markers_spec("*"@ + x + "*"@) == "<em>*"@ + x + "*</em>"@,
{
    reveal_strlit("*");
    reveal_strlit("<em>");
    reveal_strlit("</em>");
    reveal_strlit("<em>*");
    reveal_strlit("*</em>");
    let a = "*"@;
    let t = a + x + a;
    lemma_concat3_index(a, x, a);
    assert(a.len() == 1 && a[0] == '*');
    let xl = x.len() as int;
    assert forall|k: int| 0 <= k < 1 implies #[trigger] t[k] == '*' by {
        assert(t[k] == a[k]);
    }
    assert forall|k: int| 0 <= k < x.len() implies #[trigger] t[1 + k] == x[k] by {}
    assert forall|k: int| x.len() + 1 <= k < t.len() implies #[trigger] t[k] == '*' by {
        assert(t[1 + xl + (k - 1 - xl)] == a[k - 1 - xl]);
    }
    // single stars never form a longer run: the wider passes skip them
    assert forall|i: int| 0 <= i < t.len() implies !exact_run_at(t, '*', 3, i)
        && !exact_run_at(t, '*', 2, i) by {
        if exact_run_at(t, '*', 3, i) || exact_run_at(t, '*', 2, i) {
            assert(t[i + 0] == '*');
            assert(t[i + 1] == '*');
            if i == 0 {
                assert(t[1 + (0int)] == x[0int]);
            } else if i < 1 + xl {
                assert(t[1 + (i - 1)] == x[i - 1]);
            }
        }
    }
    lemma_emph_pass_skip_all(t, '*', 3, "<strong><em>"@, "</em></strong>"@, 0);
    lemma_emph_pass_skip_all(t, '*', 2, "<strong>"@, "</strong>"@, 0);
    lemma_emph_pass_skip_all(t, '*', 3, "<strong><em>***"@, "***</em></strong>"@, 0);
    lemma_emph_pass_skip_all(t, '*', 2, "<strong>**"@, "**</strong>"@, 0);
    assert(t.subrange(0, t.len() as int) =~= t);
    assert forall|k: int| 0 <= k < a.len() implies (#[trigger] a[k]) != '_' by {}
    lemma_concat3_no_char(a, x, a, '_');
    lemma_emph_pass_absent(t, '_', 2, "<strong>"@, "</strong>"@);
    lemma_emph_pass_absent(t, '_', 2, "<strong>__"@, "__</strong>"@);
    // the italic pass wraps the whole span, in both variants
    lemma_emph_pass_single(t, '*', 1, "<em>"@, "</em>"@, x);
    lemma_emph_pass_single(t, '*', 1, "<em>*"@, "*</em>"@, x);
    let s4h = "<em>"@ + x + "</em>"@;
    let s4m = "<em>*"@ + x + "*</em>"@;
    lemma_concat3_index("<em>"@, x, "</em>"@);
    lemma_concat3_index("<em>*"@, x, "*</em>"@);
    assert forall|k: int| 0 <= k < 4 implies ((#[trigger] "<em>"@[k]) != '_' && "<em>"@[k]
        != '~' && "<em>"@[k] != '`' && "<em>"@[k] != '[') by {}
    assert forall|k: int| 0 <= k < 5 implies ((#[trigger] "</em>"@[k]) != '_' && "</em>"@[k]
        != '~' && "</em>"@[k] != '`' && "</em>"@[k] != '[') by {}
    assert forall|k: int| 0 <= k < 5 implies ((#[trigger] "<em>*"@[k]) != '_' && "<em>*"@[k]
        != '~' && "<em>*"@[k] != '`' && "<em>*"@[k] != '[') by {}
    assert forall|k: int| 0 <= k < 6 implies ((#[trigger] "*</em>"@[k]) != '_' && "*</em>"@[k]
        != '~' && "*</em>"@[k] != '`' && "*</em>"@[k] != '[') by {}
    lemma_concat3_no_char("<em>"@, x, "</em>"@, '_');
    lemma_concat3_no_char("<em>"@, x, "</em>"@, '~');
    lemma_concat3_no_char("<em>"@, x, "</em>"@, '`');
    lemma_concat3_no_char("<em>"@, x, "</em>"@, '[');
    lemma_concat3_no_char("<em>*"@, x, "*</em>"@, '_');
    lemma_concat3_no_char("<em>*"@, x, "*</em>"@, '~');
    lemma_concat3_no_char("<em>*"@, x, "*</em>"@, '`');
    lemma_concat3_no_char("<em>*"@, x, "*</em>"@, '[');
    lemma_emph_pass_absent(s4h, '_', 1, "<em>"@, "</em>"@);
    lemma_emph_pass_absent(s4h, '~', 2, "<del>"@, "</del>"@);
    lemma_code_pass_absent(s4h, "<code>"@, "</code>"@);
    lemma_link_pass_absent(s4h, false);
    lemma_emph_pass_absent(s4m, '_', 1, "<em>_"@, "_</em>"@);
    lemma_emph_pass_absent(s4m, '~', 2, "<del>~~"@, "~~</del>"@);
    lemma_code_pass_absent(s4m, "<code>`"@, "`</code>"@);
    lemma_link_pass_absent(s4m, true);
    assert(inline_hidden_spec(t) == s4h);
    assert(inline_markers_spec(t) == s4m);
}

/// Inline precedence of the triple marker: `***x***` renders as bold
/// wrapping italic in the fixed tag order — never as plain bold or plain
/// italic alone — and the marker-visible variant keeps the identical
/// nesting, differing only by the literal `***` punctuation inside the
/// tags.
#[verifier::rlimit(100)]
#[verifier::spinoff_prover]
pub proof fn lemma_inline_precedence_triple(x: Seq<char>)
    requires
        plain_span_text(x),
    ensures
        inline_hidden_spec("***"@ + x + "***"@) == "<strong><em>"@ + x + "</em></strong>"@,
        inline_markers_spec("***"@ + x + "***"@) == "<strong><em>***"@ + x
            + "***</em></strong>"@,
{
    reveal_strlit("***");
    reveal_strlit("<strong><em>");
    reveal_strlit("</em></strong>");
    reveal_strlit("<strong><em>***");
    reveal_strlit("***</em></strong>");
    let a = "***"@;
    let t = a + x + a;
    lemma_concat3_index(a, x, a);
    assert(a.len() == 3 && a[0] == '*' && a[1] == '*' && a[2] == '*');
    let xl = x.len() as int;
    assert forall|k: int| 0 <= k < 3 implies #[trigger] t[k] == '*' by {
        assert(t[k] == a[k]);
    }
    assert forall|k: int| 0 <= k < x.len() implies #[trigger] t[3 + k] == x[k] by {}
    assert forall|k: int| x.len() + 3 <= k < t.len() implies #[trigger] t[k] == '*' by {
        assert(t[3 + xl + (k - 3 - xl)] == a[k - 3 - xl]);
    }
    // the triple pass wraps the whole span, in both variants
    lemma_emph_pass_single(t, '*', 3, "<strong><em>"@, "</em></strong>"@, x);
    lemma_emph_pass_single(t, '*', 3, "<strong><em>***"@, "***</em></strong>"@, x);
    let s1h = "<strong><em>"@ + x + "</em></strong>"@;
    let s1m = "<strong><em>***"@ + x + "***</em></strong>"@;
    // the hidden output carries no marker of any later pass
    lemma_concat3_index("<strong><em>"@, x, "</em></strong>"@);
    assert forall|k: int| 0 <= k < 12 implies ((#[trigger] "<strong><em>"@[k]) != '*'
        && "<strong><em>"@[k] != '_' && "<strong><em>"@[k] != '~' && "<strong><em>"@[k] != '`'
        && "<strong><em>"@[k] != '[') by {}
    assert forall|k: int| 0 <= k < 14 implies ((#[trigger] "</em></strong>"@[k]) != '*'
        && "</em></strong>"@[k] != '_' && "</em></strong>"@[k] != '~' && "</em></strong>"@[k]
        != '`' && "</em></strong>"@[k] != '[') by {}
    lemma_concat3_no_char("<strong><em>"@, x, "</em></strong>"@, '*');
    lemma_concat3_no_char("<strong><em>"@, x, "</em></strong>"@, '_');
    lemma_concat3_no_char("<strong><em>"@, x, "</em></strong>"@, '~');
    lemma_concat3_no_char("<strong><em>"@, x, "</em></strong>"@, '`');
    lemma_concat3_no_char("<strong><em>"@, x, "</em></strong>"@, '[');
    lemma_emph_pass_absent(s1h, '*', 2, "<strong>"@, "</strong>"@);
    lemma_emph_pass_absent(s1h, '_', 2, "<strong>"@, "</strong>"@);
    lemma_emph_pass_absent(s1h, '*', 1, "<em>"@, "</em>"@);
    lemma_emph_pass_absent(s1h, '_', 1, "<em>"@, "</em>"@);
    lemma_emph_pass_absent(s1h, '~', 2, "<del>"@, "</del>"@);
    lemma_code_pass_absent(s1h, "<code>"@, "</code>"@);
    lemma_link_pass_absent(s1h, false);
    assert(inline_hidden_spec(t) == s1h);
    // the marker-visible output keeps its triple stars intact
    lemma_concat3_index("<strong><em>***"@, x, "***</em></strong>"@);
    assert forall|k: int| 0 <= k < 15 implies ((#[trigger] "<strong><em>***"@[k]) != '_'
        && "<strong><em>***"@[k] != '~' && "<strong><em>***"@[k] != '`'
        && "<strong><em>***"@[k] != '[') by {}
    assert forall|k: int| 0 <= k < 17 implies ((#[trigger] "***</em></strong>"@[k]) != '_'
        && "***</em></strong>"@[k] != '~' && "***</em></strong>"@[k] != '`'
        && "***</em></strong>"@[k] != '[') by {}
    lemma_concat3_no_char("<strong><em>***"@, x, "***</em></strong>"@, '_');
    lemma_concat3_no_char("<strong><em>***"@, x, "***</em></strong>"@, '~');
    lemma_concat3_no_char("<strong><em>***"@, x, "***</em></strong>"@, '`');
    lemma_concat3_no_char("<strong><em>***"@, x, "***</em></strong>"@, '[');
    assert forall|i: int| 0 <= i < s1m.len() implies !exact_run_at(s1m, '*', 2, i)
        && !exact_run_at(s1m, '*', 1, i) by {
        if exact_run_at(s1m, '*', 2, i) || exact_run_at(s1m, '*', 1, i) {
            assert(s1m[i + 0] == '*');
            if i < 15 {
                assert(s1m[i] == "<strong><em>***"@[i]);
                if i >= 12 {
                    assert(s1m[11int] == "<strong><em>***"@[11int]);
                    assert(s1m[12int] == "<strong><em>***"@[12int]);
                    assert(s1m[13int] == "<strong><em>***"@[13int]);
                    assert(s1m[14int] == "<strong><em>***"@[14int]);
                    assert(s1m[15 + (0int)] == x[0int]);
                }
            } else if i < 15 + xl {
                assert(s1m[15 + (i - 15)] == x[i - 15]);
            } else {
                assert(s1m[15 + xl + (i - 15 - xl)] == "***</em></strong>"@[i - 15 - xl]);
                assert(s1m[15 + xl + (0int)] == "***</em></strong>"@[0int]);
                assert(s1m[15 + xl + (1int)] == "***</em></strong>"@[1int]);
                assert(s1m[15 + xl + (2int)] == "***</em></strong>"@[2int]);
                assert(s1m[15 + xl + (3int)] == "***</em></strong>"@[3int]);
                assert(s1m[15 + xl - 1] == x[xl - 1]);
            }
        }
    }
    lemma_emph_pass_skip_all(s1m, '*', 2, "<strong>**"@, "**</strong>"@, 0);
    lemma_emph_pass_skip_all(s1m, '*', 1, "<em>*"@, "*</em>"@, 0);
    assert(s1m.subrange(0, s1m.len() as int) =~= s1m);
    lemma_emph_pass_absent(s1m, '_', 2, "<strong>__"@, "__</strong>"@);
    lemma_emph_pass_absent(s1m, '_', 1, "<em>_"@, "_</em>"@);
    lemma_emph_pass_absent(s1m, '~', 2, "<del>~~"@, "~~</del>"@);
    lemma_code_pass_absent(s1m, "<code>`"@, "`</code>"@);
    lemma_link_pass_absent(s1m, true);
    assert(inline_markers_spec(t) == s1m);
}


/// [`find_close_from`] lands on `e` when no delimiter and no excluded
/// character stands before it.
proof fn lemma_find_close_skips(t: Seq<char>, d: Seq<char>, excl: char, j: int, e: int)
    requires
        d.len() >= 1,
        0 <= j <= e,
        starts_with_at(t, d, e),
        forall|k: int| j <= k < e ==> !(#[trigger] starts_with_at(t, d, k)) && t[k] != excl,
    ensures
        find_close_from(t, d, excl, j) == Some(e),
    decreases e - j,
{
    if j < e {
        assert(!starts_with_at(t, d, j));
        assert(t[j] != excl);
        assert(j < t.len());
        lemma_find_close_skips(t, d, excl, j + 1, e);
        assert(find_close_from(t, d, excl, j) == find_close_from(t, d, excl, j + 1));
    }
}

/// A delimiter pass on exactly one whole span — the delimiter, a stretch
/// free of the delimiter's first character and of the excluded character,
/// and the delimiter again at the very end — wraps the stretch once.
#[verifier::rlimit(100)]
#[verifier::spinoff_prover]
proof fn lemma_delim_pass_single(
    t: Seq<char>,
    d: Seq<char>,
    excl: char,
    pre: Seq<char>,
    suf: Seq<char>,
    x: Seq<char>,
)
    requires
        d.len() >= 1,
        x.len() > 0,
        t.len() == x.len() + 2 * d.len(),
        forall|k: int| 0 <= k < d.len() ==> #[trigger] t[k] == d[k],
        forall|k: int| 0 <= k < x.len() ==> #[trigger] t[d.len() + k] == x[k],
        forall|k: int| 0 <= k < d.len() ==> #[trigger] t[x.len() + d.len() + k] == d[k],
        forall|k: int| 0 <= k < x.len() ==> (#[trigger] x[k]) != excl && x[k] != d[0],
    ensures
        delim_pass_from(t, d, excl, pre, suf, 0) == pre + x + suf,
{
    let dl = d.len() as int;
    let e = dl + x.len();
    assert(t[dl + 0] == x[0]);
    assert(t.subrange(0, dl) =~= d);
    assert(starts_with_at(t, d, 0));
    assert forall|k: int| 0 <= k < d.len() implies t.subrange(e, e + dl)[k] == d[k] by {
        assert(t[x.len() + d.len() + k] == d[k]);
    }
    assert(t.subrange(e, e + dl) =~= d);
    assert(starts_with_at(t, d, e));
    assert forall|k: int|
        dl + 1 <= k < e implies !(#[trigger] starts_with_at(t, d, k)) && t[k] != excl by {
        assert(t[dl + (k - dl)] == x[k - dl]);
        if starts_with_at(t, d, k) {
            assert(t.subrange(k, k + d.len())[0] == t[k]);
        }
    }
    lemma_find_close_skips(t, d, excl, dl + 1, e);
    assert(find_close_from(t, d, excl, dl + 1) == Some(e));
    assert(delim_pass_from(t, d, excl, pre, suf, e + dl) == Seq::<char>::empty());
    assert forall|k: int| 0 <= k < x.len() implies t.subrange(dl, e)[k] == x[k] by {
        assert(t[dl + k] == x[k]);
    }
    assert(t.subrange(dl, e) =~= x);
    assert(delim_pass_from(t, d, excl, pre, suf, 0) == pre + t.subrange(dl, e) + suf
        + delim_pass_from(t, d, excl, pre, suf, e + dl));
    assert(pre + x + suf + Seq::<char>::empty() =~= pre + x + suf);
}

/// Marker visibility for a bold span written with underscores, as in
/// [`lemma_marker_visibility_bold`].
pub proof fn lemma_marker_visibility_bold_underscore(x: Seq<char>)
    requires
        plain_span_text(x),
    ensures
        inline_hidden_spec("__"@ + x + "__"@) == "<strong>"@ + x + "</strong>"@,
        inline_markers_spec("__"@ + x + "__"@) == "<strong>__"@ + x + "__</strong>"@,
{
    lemma_bold_underscore_hidden(x);
    lemma_bold_underscore_markers(x);
}

proof fn lemma_bold_underscore_head(x: Seq<char>)
    requires
        plain_span_text(x),
    ensures
        forall|k: int| 0 <= k < 2 ==> #[trigger] ("__"@ + x + "__"@)[k] == '_',
        forall|k: int| 0 <= k < x.len() ==> #[trigger] ("__"@ + x + "__"@)[2 + k] == x[k],
        forall|k: int|
            x.len() + 2 <= k < ("__"@ + x + "__"@).len() ==> #[trigger] ("__"@ + x + "__"@)[k]
                == '_',
        ("__"@ + x + "__"@).len() == x.len() + 4,
        emph_pass("__"@ + x + "__"@, '*', 3, "<strong><em>"@, "</em></strong>"@) == "__"@ + x
            + "__"@,
        emph_pass("__"@ + x + "__"@, '*', 2, "<strong>"@, "</strong>"@) == "__"@ + x + "__"@,
        emph_pass("__"@ + x + "__"@, '*', 3, "<strong><em>***"@, "***</em></strong>"@) == "__"@
            + x + "__"@,
        emph_pass("__"@ + x + "__"@, '*', 2, "<strong>**"@, "**</strong>"@) == "__"@ + x + "__"@,
{
    reveal_strlit("__");
    let a = "__"@;
    let t = a + x + a;
    lemma_concat3_index(a, x, a);
    assert(a.len() == 2 && a[0] == '_' && a[1] == '_');
    let xl = x.len() as int;
    assert forall|k: int| 0 <= k < 2 implies #[trigger] t[k] == '_' by {
        assert(t[k] == a[k]);
    }
    assert forall|k: int| 0 <= k < x.len() implies #[trigger] t[2 + k] == x[k] by {}
    assert forall|k: int| x.len() + 2 <= k < t.len() implies #[trigger] t[k] == '_' by {
        assert(t[2 + xl + (k - 2 - xl)] == a[k - 2 - xl]);
    }
    assert forall|k: int| 0 <= k < a.len() implies (#[trigger] a[k]) != '*' by {}
    lemma_concat3_no_char(a, x, a, '*');
    lemma_emph_pass_absent(t, '*', 3, "<strong><em>"@, "</em></strong>"@);
    lemma_emph_pass_absent(t, '*', 2, "<strong>"@, "</strong>"@);
    lemma_emph_pass_absent(t, '*', 3, "<strong><em>***"@, "***</em></strong>"@);
    lemma_emph_pass_absent(t, '*', 2, "<strong>**"@, "**</strong>"@);
}

#[verifier::rlimit(100)]
#[verifier::spinoff_prover]
proof fn lemma_bold_underscore_hidden(x: Seq<char>)
    requires
        plain_span_text(x),
    ensures
        inline_hidden_spec("__"@ + x + "__"@) == "<strong>"@ + x + "</strong>"@,
{
    reveal_strlit("<strong>");
    reveal_strlit("</strong>");
    let t = "__"@ + x + "__"@;
    lemma_bold_underscore_head(x);
    lemma_emph_pass_single(t, '_', 2, "<strong>"@, "</strong>"@, x);
    let s3h = "<strong>"@ + x + "</strong>"@;
    lemma_concat3_index("<strong>"@, x, "</strong>"@);
    assert forall|k: int| 0 <= k < 8 implies ((#[trigger] "<strong>"@[k]) != '*'
        && "<strong>"@[k] != '_' && "<strong>"@[k] != '~' && "<strong>"@[k] != '`'
        && "<strong>"@[k] != '[') by {}
    assert forall|k: int| 0 <= k < 9 implies ((#[trigger] "</strong>"@[k]) != '*'
        && "</strong>"@[k] != '_' && "</strong>"@[k] != '~' && "</strong>"@[k] != '`'
        && "</strong>"@[k] != '[') by {}
    lemma_concat3_no_char("<strong>"@, x, "</strong>"@, '*');
    lemma_concat3_no_char("<strong>"@, x, "</strong>"@, '_');
    lemma_concat3_no_char("<strong>"@, x, "</strong>"@, '~');
    lemma_concat3_no_char("<strong>"@, x, "</strong>"@, '`');
    lemma_concat3_no_char("<strong>"@, x, "</strong>"@, '[');
    lemma_emph_pass_absent(s3h, '*', 1, "<em>"@, "</em>"@);
    lemma_emph_pass_absent(s3h, '_', 1, "<em>"@, "</em>"@);
    lemma_emph_pass_absent(s3h, '~', 2, "<del>"@, "</del>"@);
    lemma_code_pass_absent(s3h, "<code>"@, "</code>"@);
    lemma_link_pass_absent(s3h, false);
    assert(inline_hidden_spec(t) == s3h);
}

#[verifier::rlimit(100)]
#[verifier::spinoff_prover]
proof fn lemma_bold_underscore_markers(x: Seq<char>)
    requires
        plain_span_text(x),
    ensures
        inline_markers_spec("__"@ + x + "__"@) == "<strong>__"@ + x + "__</strong>"@,
{
    reveal_strlit("<strong>__");
    reveal_strlit("__</strong>");
    let t = "__"@ + x + "__"@;
    let xl = x.len() as int;
    lemma_bold_underscore_head(x);
    lemma_emph_pass_single(t, '_', 2, "<strong>__"@, "__</strong>"@, x);
    let s3m = "<strong>__"@ + x + "__</strong>"@;
    lemma_concat3_index("<strong>__"@, x, "__</strong>"@);
    assert forall|k: int| 0 <= k < 10 implies ((#[trigger] "<strong>__"@[k]) != '*'
        && "<strong>__"@[k] != '~' && "<strong>__"@[k] != '`' && "<strong>__"@[k] != '[') by {}
    assert forall|k: int| 0 <= k < 11 implies ((#[trigger] "__</strong>"@[k]) != '*'
        && "__</strong>"@[k] != '~' && "__</strong>"@[k] != '`' && "__</strong>"@[k] != '[')
        by {}
    lemma_concat3_no_char("<strong>__"@, x, "__</strong>"@, '*');
    lemma_concat3_no_char("<strong>__"@, x, "__</strong>"@, '~');
    lemma_concat3_no_char("<strong>__"@, x, "__</strong>"@, '`');
    lemma_concat3_no_char("<strong>__"@, x, "__</strong>"@, '[');
    lemma_emph_pass_absent(s3m, '*', 1, "<em>*"@, "*</em>"@);
    assert forall|i: int| 0 <= i < s3m.len() implies !exact_run_at(s3m, '_', 1, i) by {
        if exact_run_at(s3m, '_', 1, i) {
            assert(s3m[i + 0] == '_');
            if i < 10 {
                assert(s3m[i] == "<strong>__"@[i]);
                if i == 8 {
                    assert(s3m[9int] == "<strong>__"@[9int]);
                } else if i == 9 {
                    assert(s3m[8int] == "<strong>__"@[8int]);
                }
            } else if i < 10 + xl {
                assert(s3m[10 + (i - 10)] == x[i - 10]);
            } else {
                assert(s3m[10 + xl + (i - 10 - xl)] == "__</strong>"@[i - 10 - xl]);
                if i == 10 + xl {
                    assert(s3m[10 + xl + (1int)] == "__</strong>"@[1int]);
                } else if i == 11 + xl {
                    assert(s3m[10 + xl + (0int)] == "__</strong>"@[0int]);
                }
            }
        }
    }
    lemma_emph_pass_skip_all(s3m, '_', 1, "<em>_"@, "_</em>"@, 0);
    assert(s3m.subrange(0, s3m.len() as int) =~= s3m);
    lemma_emph_pass_absent(s3m, '~', 2, "<del>~~"@, "~~</del>"@);
    lemma_code_pass_absent(s3m, "<code>`"@, "`</code>"@);
    lemma_link_pass_absent(s3m, true);
    assert(inline_markers_spec(t) == s3m);
}

/// Marker visibility for an italic span written with underscores, as in
/// [`lemma_marker_visibility_italic`].
#[verifier::rlimit(100)]
#[verifier::spinoff_prover]
pub proof fn lemma_marker_visibility_italic_underscore(x: Seq<char>)
    requires
        plain_span_text(x),
    ensures
        inline_hidden_spec("_"@ + x + "_"@) == "<em>"@ + x + "</em>"@,
        inline_markers_spec("_"@ + x + "_"@) == "<em>_"@ + x + "_</em>"@,
{
    reveal_strlit("_");
    reveal_strlit("<em>");
    reveal_strlit("</em>");
    reveal_strlit("<em>_");
    reveal_strlit("_</em>");
    let a = "_"@;
    let t = a + x + a;
    lemma_concat3_index(a, x, a);
    assert(a.len() == 1 && a[0] == '_');
    let xl = x.len() as int;
    assert forall|k: int| 0 <= k < 1 implies #[trigger] t[k] == '_' by {
        assert(t[k] == a[k]);
    }
    assert forall|k: int| 0 <= k < x.len() implies #[trigger] t[1 + k] == x[k] by {}
    assert forall|k: int| x.len() + 1 <= k < t.len() implies #[trigger] t[k] == '_' by {
        assert(t[1 + xl + (k - 1 - xl)] == a[k - 1 - xl]);
    }
    assert forall|k: int| 0 <= k < a.len() implies (#[trigger] a[k]) != '*' by {}
    lemma_concat3_no_char(a, x, a, '*');
    lemma_emph_pass_absent(t, '*', 3, "<strong><em>"@, "</em></strong>"@);
    lemma_emph_pass_absent(t, '*', 2, "<strong>"@, "</strong>"@);
    lemma_emph_pass_absent(t, '*', 1, "<em>"@, "</em>"@);
    lemma_emph_pass_absent(t, '*', 3, "<strong><em>***"@, "***</em></strong>"@);
    lemma_emph_pass_absent(t, '*', 2, "<strong>**"@, "**</strong>"@);
    lemma_emph_pass_absent(t, '*', 1, "<em>*"@, "*</em>"@);
    // single underscores never form a double run
    assert forall|i: int| 0 <= i < t.len() implies !exact_run_at(t, '_', 2, i) by {
        if exact_run_at(t, '_', 2, i) {
            assert(t[i + 0] == '_');
            assert(t[i + 1] == '_');
            if i == 0 {
                assert(t[1 + (0int)] == x[0int]);
            } else if i < 1 + xl {
                assert(t[1 + (i - 1)] == x[i - 1]);
            }
        }
    }
    lemma_emph_pass_skip_all(t, '_', 2, "<strong>"@, "</strong>"@, 0);
    lemma_emph_pass_skip_all(t, '_', 2, "<strong>__"@, "__</strong>"@, 0);
    assert(t.subrange(0, t.len() as int) =~= t);
    lemma_emph_pass_single(t, '_', 1, "<em>"@, "</em>"@, x);
    lemma_emph_pass_single(t, '_', 1, "<em>_"@, "_</em>"@, x);
    let s5h = "<em>"@ + x + "</em>"@;
    let s5m = "<em>_"@ + x + "_</em>"@;
    lemma_concat3_index("<em>"@, x, "</em>"@);
    lemma_concat3_index("<em>_"@, x, "_</em>"@);
    assert forall|k: int| 0 <= k < 4 implies ((#[trigger] "<em>"@[k]) != '~' && "<em>"@[k]
        != '`' && "<em>"@[k] != '[') by {}
    assert forall|k: int| 0 <= k < 5 implies ((#[trigger] "</em>"@[k]) != '~' && "</em>"@[k]
        != '`' && "</em>"@[k] != '[') by {}
    assert forall|k: int| 0 <= k < 5 implies ((#[trigger] "<em>_"@[k]) != '~' && "<em>_"@[k]
        != '`' && "<em>_"@[k] != '[') by {}
    assert forall|k: int| 0 <= k < 6 implies ((#[trigger] "_</em>"@[k]) != '~' && "_</em>"@[k]
        != '`' && "_</em>"@[k] != '[') by {}
    lemma_concat3_no_char("<em>"@, x, "</em>"@, '~');
    lemma_concat3_no_char("<em>"@, x, "</em>"@, '`');
    lemma_concat3_no_char("<em>"@, x, "</em>"@, '[');
    lemma_concat3_no_char("<em>_"@, x, "_</em>"@, '~');
    lemma_concat3_no_char("<em>_"@, x, "_</em>"@, '`');
    lemma_concat3_no_char("<em>_"@, x, "_</em>"@, '[');
    lemma_emph_pass_absent(s5h, '~', 2, "<del>"@, "</del>"@);
    lemma_code_pass_absent(s5h, "<code>"@, "</code>"@);
    lemma_link_pass_absent(s5h, false);
    lemma_emph_pass_absent(s5m, '~', 2, "<del>~~"@, "~~</del>"@);
    lemma_code_pass_absent(s5m, "<code>`"@, "`</code>"@);
    lemma_link_pass_absent(s5m, true);
    assert(inline_hidden_spec(t) == s5h);
    assert(inline_markers_spec(t) == s5m);
}

/// Marker visibility for an inline code span, as in
/// [`lemma_marker_visibility_bold`].
#[verifier::rlimit(100)]
#[verifier::spinoff_prover]
pub proof fn lemma_marker_visibility_code(x: Seq<char>)
    requires
        plain_span_text(x),
    ensures
        inline_hidden_spec("`"@ + x + "`"@) == "<code>"@ + x + "</code>"@,
        inline_markers_spec("`"@ + x + "`"@) == "<code>`"@ + x + "`</code>"@,
{
    reveal_strlit("`");
    reveal_strlit("<code>");
    reveal_strlit("</code>");
    reveal_strlit("<code>`");
    reveal_strlit("`</code>");
    let a = "`"@;
    let t = a + x + a;
    lemma_concat3_index(a, x, a);
    assert(a.len() == 1 && a[0] == '`');
    let xl = x.len() as int;
    assert forall|k: int| 0 <= k < 1 implies #[trigger] t[k] == '`' by {
        assert(t[k] == a[k]);
    }
    assert forall|k: int| 0 <= k < x.len() implies #[trigger] t[1 + k] == x[k] by {}
    assert forall|k: int| x.len() + 1 <= k < t.len() implies #[trigger] t[k] == '`' by {
        assert(t[1 + xl + (k - 1 - xl)] == a[k - 1 - xl]);
    }
    assert forall|k: int| 0 <= k < a.len() implies ((#[trigger] a[k]) != '*' && a[k] != '_'
        && a[k] != '~') by {}
    lemma_concat3_no_char(a, x, a, '*');
    lemma_concat3_no_char(a, x, a, '_');
    lemma_concat3_no_char(a, x, a, '~');
    lemma_emph_pass_absent(t, '*', 3, "<strong><em>"@, "</em></strong>"@);
    lemma_emph_pass_absent(t, '*', 2, "<strong>"@, "</strong>"@);
    lemma_emph_pass_absent(t, '_', 2, "<strong>"@, "</strong>"@);
    lemma_emph_pass_absent(t, '*', 1, "<em>"@, "</em>"@);
    lemma_emph_pass_absent(t, '_', 1, "<em>"@, "</em>"@);
    lemma_emph_pass_absent(t, '~', 2, "<del>"@, "</del>"@);
    lemma_emph_pass_absent(t, '*', 3, "<strong><em>***"@, "***</em></strong>"@);
    lemma_emph_pass_absent(t, '*', 2, "<strong>**"@, "**</strong>"@);
    lemma_emph_pass_absent(t, '_', 2, "<strong>__"@, "__</strong>"@);
    lemma_emph_pass_absent(t, '*', 1, "<em>*"@, "*</em>"@);
    lemma_emph_pass_absent(t, '_', 1, "<em>_"@, "_</em>"@);
    lemma_emph_pass_absent(t, '~', 2, "<del>~~"@, "~~</del>"@);
    // x carries neither a backtick nor the delimiter's first character
    assert forall|k: int| 0 <= k < x.len() implies (#[trigger] x[k]) != '`' && x[k] != "`"@[0int]
        by {}
    lemma_delim_pass_single(t, "`"@, '`', "<code>"@, "</code>"@, x);
    lemma_delim_pass_single(t, "`"@, '`', "<code>`"@, "`</code>"@, x);
    let s7h = "<code>"@ + x + "</code>"@;
    let s7m = "<code>`"@ + x + "`</code>"@;
    lemma_concat3_index("<code>"@, x, "</code>"@);
    lemma_concat3_index("<code>`"@, x, "`</code>"@);
    assert forall|k: int| 0 <= k < 6 implies (#[trigger] "<code>"@[k]) != '[' by {}
    assert forall|k: int| 0 <= k < 7 implies ((#[trigger] "</code>"@[k]) != '['
        && (#[trigger] "<code>`"@[k]) != '[') by {}
    assert forall|k: int| 0 <= k < 8 implies (#[trigger] "`</code>"@[k]) != '[' by {}
    lemma_concat3_no_char("<code>"@, x, "</code>"@, '[');
    lemma_concat3_no_char("<code>`"@, x, "`</code>"@, '[');
    lemma_link_pass_absent(s7h, false);
    lemma_link_pass_absent(s7m, true);
    assert(inline_hidden_spec(t) == s7h);
    assert(inline_markers_spec(t) == s7m);
}


/// Marker visibility for a link: both variants emit the same anchor with
/// the same `href`; the marker-visible one keeps the bracketed original
/// inside the anchor, the hidden one keeps the link text alone.
#[verifier::rlimit(100)]
#[verifier::spinoff_prover]
pub proof fn lemma_marker_visibility_link(txt: Seq<char>, url: Seq<char>)
    requires
        plain_span_text(txt),
        plain_span_text(url),
        forall|k: int| 0 <= k < txt.len() ==> (#[trigger] txt[k]) != ']',
        forall|k: int| 0 <= k < url.len() ==> (#[trigger] url[k]) != ')',
    ensures
        inline_hidden_spec("["@ + txt + "]("@ + url + ")"@) == "<a href=\""@ + url + "\">"@
            + txt + "</a>"@,
        inline_markers_spec("["@ + txt + "]("@ + url + ")"@) == "<a href=\""@ + url + "\">"@
            + (Seq::empty() + "["@ + txt + "]("@ + url + ")"@) + "</a>"@,
{
    reveal_strlit("[");
    reveal_strlit("](");
    reveal_strlit(")");
    let u = "["@ + txt + "]("@;
    let t = u + url + ")"@;
    lemma_concat3_index("["@, txt, "]("@);
    lemma_concat3_index(u, url, ")"@);
    let tl = txt.len() as int;
    let ul = url.len() as int;
    assert("["@.len() == 1 && "]("@.len() == 2 && ")"@.len() == 1);
    assert(u.len() == tl + 3);
    assert(t.len() == tl + ul + 4);
    // the characters of the whole line
    assert(u[0int] == '[');
    assert forall|k: int| 0 <= k < u.len() implies #[trigger] t[k] == u[k] by {}
    assert(t[0int] == '[');
    assert forall|k: int| 0 <= k < txt.len() implies #[trigger] t[1 + k] == txt[k] by {
        assert(u[1 + k] == txt[k]);
        assert(t[1 + k] == u[1 + k]);
    }
    assert(u[1 + tl + (0int)] == "]("@[0int]);
    assert(u[1 + tl + (1int)] == "]("@[1int]);
    assert(t[1 + tl] == u[1 + tl]);
    assert(t[2 + tl] == u[2 + tl]);
    assert(t[1 + tl] == ']' && t[2 + tl] == '(');
    assert forall|k: int| 0 <= k < url.len() implies #[trigger] t[u.len() + k] == url[k] by {}
    assert(t[u.len() + ul + (0int)] == ")"@[0int]);
    assert(t[3 + tl + ul] == ')');
    // no emphasis or code marker stands anywhere in the line
    assert forall|k: int| 0 <= k < "["@.len() implies ((#[trigger] "["@[k]) != '*' && "["@[k]
        != '_' && "["@[k] != '~' && "["@[k] != '`') by {}
    assert forall|k: int| 0 <= k < "]("@.len() implies ((#[trigger] "]("@[k]) != '*' && "]("@[k]
        != '_' && "]("@[k] != '~' && "]("@[k] != '`') by {}
    assert forall|k: int| 0 <= k < ")"@.len() implies ((#[trigger] ")"@[k]) != '*' && ")"@[k]
        != '_' && ")"@[k] != '~' && ")"@[k] != '`') by {}
    lemma_concat3_no_char("["@, txt, "]("@, '*');
    lemma_concat3_no_char("["@, txt, "]("@, '_');
    lemma_concat3_no_char("["@, txt, "]("@, '~');
    lemma_concat3_no_char("["@, txt, "]("@, '`');
    lemma_concat3_no_char(u, url, ")"@, '*');
    lemma_concat3_no_char(u, url, ")"@, '_');
    lemma_concat3_no_char(u, url, ")"@, '~');
    lemma_concat3_no_char(u, url, ")"@, '`');
    lemma_emph_pass_absent(t, '*', 3, "<strong><em>"@, "</em></strong>"@);
    lemma_emph_pass_absent(t, '*', 2, "<strong>"@, "</strong>"@);
    lemma_emph_pass_absent(t, '_', 2, "<strong>"@, "</strong>"@);
    lemma_emph_pass_absent(t, '*', 1, "<em>"@, "</em>"@);
    lemma_emph_pass_absent(t, '_', 1, "<em>"@, "</em>"@);
    lemma_emph_pass_absent(t, '~', 2, "<del>"@, "</del>"@);
    lemma_code_pass_absent(t, "<code>"@, "</code>"@);
    lemma_emph_pass_absent(t, '*', 3, "<strong><em>***"@, "***</em></strong>"@);
    lemma_emph_pass_absent(t, '*', 2, "<strong>**"@, "**</strong>"@);
    lemma_emph_pass_absent(t, '_', 2, "<strong>__"@, "__</strong>"@);
    lemma_emph_pass_absent(t, '*', 1, "<em>*"@, "*</em>"@);
    lemma_emph_pass_absent(t, '_', 1, "<em>_"@, "_</em>"@);
    lemma_emph_pass_absent(t, '~', 2, "<del>~~"@, "~~</del>"@);
    lemma_code_pass_absent(t, "<code>`"@, "`</code>"@);
    // the link pass recognises the whole line as one link
    let a = 1 + tl;
    let b = 3 + tl + ul;
    assert forall|k: int| 1 <= k < a implies t[k] != ']' by {
        assert(t[1 + (k - 1)] == txt[k - 1]);
    }
    crate::text::lemma_find_char_skips(t, ']', 1, a);
    assert forall|k: int| a + 2 <= k < b implies t[k] != ')' by {
        assert(t[u.len() + (k - u.len())] == url[k - u.len()]);
    }
    crate::text::lemma_find_char_skips(t, ')', a + 2, b);
    assert(link_match_at(t, 0) == Some((a, b)));
    assert forall|k: int| 0 <= k < txt.len() implies t.subrange(1, a)[k] == txt[k] by {
        assert(t[1 + k] == txt[k]);
    }
    assert(t.subrange(1, a) =~= txt);
    assert forall|k: int| 0 <= k < url.len() implies t.subrange(a + 2, b)[k] == url[k] by {
        assert(t[u.len() + k] == url[k]);
    }
    assert(t.subrange(a + 2, b) =~= url);
    assert(link_pass_from(t, false, b + 1) == Seq::<char>::empty());
    assert(link_pass_from(t, true, b + 1) == Seq::<char>::empty());
    assert(link_pass_from(t, false, 0) == "<a href=\""@ + url + "\">"@ + txt + "</a>"@
        + Seq::<char>::empty());
    assert(link_pass_from(t, false, 0) =~= "<a href=\""@ + url + "\">"@ + txt + "</a>"@);
    let mbody = Seq::empty() + "["@ + txt + "]("@ + url + ")"@;
    assert(link_pass_from(t, true, 0) == "<a href=\""@ + url + "\">"@ + mbody + "</a>"@
        + Seq::<char>::empty());
    assert(link_pass_from(t, true, 0) =~= "<a href=\""@ + url + "\">"@ + mbody + "</a>"@);
    assert(inline_hidden_spec(t) == link_pass(t, false));
    assert(inline_markers_spec(t) == link_pass(t, true));
}


/// Text free of markdown punctuation passes through both transformer
/// variants unchanged.
pub proof fn lemma_plain_text_unchanged(x: Seq<char>)
    requires
        forall|k: int|
            0 <= k < x.len() ==> ((#[trigger] x[k]) != '*' && x[k] != '_' && x[k] != '~' && x[k]
                != '`' && x[k] != '['),
    ensures
        inline_hidden_spec(x) == x,
        inline_markers_spec(x) == x,
{
    lemma_emph_pass_absent(x, '*', 3, "<strong><em>"@, "</em></strong>"@);
    lemma_emph_pass_absent(x, '*', 2, "<strong>"@, "</strong>"@);
    lemma_emph_pass_absent(x, '_', 2, "<strong>"@, "</strong>"@);
    lemma_emph_pass_absent(x, '*', 1, "<em>"@, "</em>"@);
    lemma_emph_pass_absent(x, '_', 1, "<em>"@, "</em>"@);
    lemma_emph_pass_absent(x, '~', 2, "<del>"@, "</del>"@);
    lemma_code_pass_absent(x, "<code>"@, "</code>"@);
    lemma_link_pass_absent(x, false);
    lemma_emph_pass_absent(x, '*', 3, "<strong><em>***"@, "***</em></strong>"@);
    lemma_emph_pass_absent(x, '*', 2, "<strong>**"@, "**</strong>"@);
    lemma_emph_pass_absent(x, '_', 2, "<strong>__"@, "__</strong>"@);
    lemma_emph_pass_absent(x, '*', 1, "<em>*"@, "*</em>"@);
    lemma_emph_pass_absent(x, '_', 1, "<em>_"@, "_</em>"@);
    lemma_emph_pass_absent(x, '~', 2, "<del>~~"@, "~~</del>"@);
    lemma_code_pass_absent(x, "<code>`"@, "`</code>"@);
    lemma_link_pass_absent(x, true);
}

} // verus!
