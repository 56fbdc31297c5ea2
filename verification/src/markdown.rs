//! Markdown rendering: the per-line dispatcher and the batch renderer.
//!
//! Given a render request — the target line, its index, a snapshot of every
//! line of the document and an editing flag — the dispatcher picks one of a
//! fixed, priority-ordered set of line categories (code fence boundary, code
//! interior, math fence boundary, math interior, blank line, horizontal
//! rule, header, list item, blockquote, paragraph) and assembles the HTML
//! fragment for it, delegating inline text to the inline transformer.

use vstd::prelude::*;

use rayon::iter::{IntoParallelIterator, ParallelIterator};

use crate::block_detection::{code_block_state, is_in_code_block, is_in_math_block,
    math_block_state};
use crate::inline_rendering::{inline_hidden_chars, inline_hidden_spec, inline_markers_chars,
    inline_markers_spec};
use crate::text::{append_chars, append_dec, append_range, append_str, char_run, char_run_len,
    chars_to_string, dec_str, digit_run, digit_run_len, find_char, has_char, subvec, to_chars,
    trim_bounds, trim_spec, word_run, word_run_len, ws_run, ws_run_len};

verus! {

/// The result of rendering one line: the HTML fragment and whether the line
/// opens or closes a fenced block of either kind.
#[derive(Debug, Clone)]
pub struct LineRenderResult {
    pub html: String,
    pub is_code_block_boundary: bool,
}

/// One rendering request: the target line, its index, the full snapshot of
/// the document's lines in order, and the mode flag.
#[derive(Debug, Clone)]
pub struct RenderRequest {
    pub line: String,
    pub line_index: usize,
    pub all_lines: Vec<String>,
    pub is_editing: bool,
}

/// What one character contributes to HTML-escaped text.
pub open spec fn escape_char_seq(c: char) -> Seq<char> {
    if c == '&' {
        "&amp;"@
    } else if c == '<' {
        "&lt;"@
    } else if c == '>' {
        "&gt;"@
    } else {
        seq![c]
    }
}

pub open spec fn escape_from(s: Seq<char>, i: int) -> Seq<char>
    decreases s.len() - i,
{
    if i < 0 || i >= s.len() {
        Seq::empty()
    } else {
        escape_char_seq(s[i]) + escape_from(s, i + 1)
    }
}

/// The text with `&`, `<` and `>` replaced by their HTML entities.
pub open spec fn escape_seq(s: Seq<char>) -> Seq<char> {
    escape_from(s, 0)
}

/// Relies on `html_escape::encode_text`: it replaces `&` by `&amp;`, `<` by
/// `&lt;` and `>` by `&gt;`, and keeps every other character unchanged.
#[verifier::external_body]
fn escape_chars(t: &Vec<char>) -> (r: Vec<char>)
    ensures
        r@ == escape_seq(t@),
{
    let s: String = t.iter().collect();
    html_escape::encode_text(&s).chars().collect()
}

/// Appends the HTML-escaped text of `t` to `out`.
fn append_escaped(out: &mut Vec<char>, t: &Vec<char>)
    ensures
        final(out)@ == old(out)@ + escape_seq(t@),
{
    let e = escape_chars(t);
    append_chars(out, &e);
}

/// The language token of a code fence line (already trimmed): the run of
/// word characters just after the three backticks, empty when absent.
pub open spec fn fence_lang(t: Seq<char>) -> Seq<char> {
    if t.len() >= 3 && t[0] == '`' && t[1] == '`' && t[2] == '`' {
        t.subrange(3, 3 + word_run_len(t, 3))
    } else {
        Seq::empty()
    }
}

/// A horizontal rule: the whole trimmed line is three or more repeated
/// `-`, `*` or `_` characters and nothing else.
pub open spec fn is_hr_line(line: Seq<char>) -> bool {
    let t = trim_spec(line);
    t.len() >= 3 && (char_run_len(t, '-', 0) == t.len() || char_run_len(t, '*', 0) == t.len()
        || char_run_len(t, '_', 0) == t.len())
}

/// The tail of a line category that asks for required whitespace and then
/// text: from position `p`, at least one whitespace character, then the
/// text running to the end of the line.  The text must be non-empty and
/// free of line breaks; when only whitespace follows, the last whitespace
/// character itself serves as the text, the way a greedy whitespace run
/// followed by a required non-empty rest backtracks.
pub open spec fn ws_then_text(line: Seq<char>, p: int) -> Option<Seq<char>> {
    if p < 0 || p >= line.len() {
        None
    } else {
        let w = ws_run_len(line, p);
        if w == 0 {
            None
        } else if p + w < line.len() {
            let rest = line.subrange(p + w, line.len() as int);
            if !has_char(rest, '\n') {
                Some(rest)
            } else {
                None
            }
        } else if w >= 2 && line[p + w - 1] != '\n' {
            Some(line.subrange(p + w - 1, line.len() as int))
        } else {
            None
        }
    }
}

/// A header line: one to six leading `#` characters, required whitespace,
/// then text.  Yields the heading level and the text.
pub open spec fn header_parse(line: Seq<char>) -> Option<(int, Seq<char>)> {
    let n = char_run_len(line, '#', 0);
    if 1 <= n <= 6 {
        match ws_then_text(line, n) {
            Some(txt) => Some((n, txt)),
            None => None,
        }
    } else {
        None
    }
}

/// A list item line: optional leading whitespace, an unordered marker
/// (`-`, `*`, `+`) or an ordered marker (digits then `.`), required
/// whitespace, then text.  Yields the indent width, the marker text, the
/// item text, and whether the marker is ordered.
pub open spec fn list_parse(line: Seq<char>) -> Option<(int, Seq<char>, Seq<char>, bool)> {
    let k = ws_run_len(line, 0);
    if k < line.len() && (line[k] == '-' || line[k] == '*' || line[k] == '+') {
        match ws_then_text(line, k + 1) {
            Some(txt) => Some((k, line.subrange(k, k + 1), txt, false)),
            None => None,
        }
    } else {
        let d = digit_run_len(line, k);
        if d >= 1 && k + d < line.len() && line[k + d] == '.' {
            match ws_then_text(line, k + d + 1) {
                Some(txt) => Some((k, line.subrange(k, k + d + 1), txt, true)),
                None => None,
            }
        } else {
            None
        }
    }
}

/// A blockquote line: a leading `>`, optional whitespace, then text.
pub open spec fn quote_parse(line: Seq<char>) -> Option<Seq<char>> {
    if line.len() > 0 && line[0] == '>' {
        let w = ws_run_len(line, 1);
        if 1 + w < line.len() {
            let rest = line.subrange(1 + w, line.len() as int);
            if !has_char(rest, '\n') {
                Some(rest)
            } else {
                None
            }
        } else if w >= 1 && line[w] != '\n' {
            Some(line.subrange(w, line.len() as int))
        } else {
            None
        }
    } else {
        None
    }
}

/// The rendered HTML fragment and boundary flag for one line, given the
/// line text, its index, the document snapshot and the mode: the per-line
/// state machine, first match wins, in the fixed priority order.
pub open spec fn render_line_spec(
    line: Seq<char>,
    i: int,
    lines: Seq<Seq<char>>,
    editing: bool,
) -> (Seq<char>, bool) {
    let c = code_block_state(i, lines);
    let t = trim_spec(line);
    if c.1 {
        if editing {
            ("<span class=\"code-block-start\" data-lang=\""@ + fence_lang(t) + "\">"@
                + escape_seq(t) + "</span>"@, true)
        } else {
            ("<span class=\"code-block-start\" data-lang=\""@ + fence_lang(t) + "\"></span>"@,
            true)
        }
    } else if c.2 {
        if editing {
            ("<span class=\"code-block-end\">"@ + escape_seq(t) + "</span>"@, true)
        } else {
            ("<span class=\"code-block-end\"></span>"@, true)
        }
    } else if c.0 {
        if editing {
            ("<span class=\"code-block-line-editing\">"@ + escape_seq(line) + "</span>"@, false)
        } else {
            ("<code class=\"code-block-line\">"@ + escape_seq(line) + "</code>"@, false)
        }
    } else {
        let m = math_block_state(i, lines);
        if m.1 {
            if editing {
                ("<span class=\"math-block-start\">"@ + escape_seq(t) + "</span>"@, true)
            } else {
                ("<span class=\"math-block-start\"></span>"@, true)
            }
        } else if m.2 {
            if editing {
                ("<span class=\"math-block-end\">"@ + escape_seq(t) + "</span>"@, true)
            } else {
                ("<span class=\"math-block-end\"></span>"@, true)
            }
        } else if m.0 {
            if editing {
                ("<span class=\"math-block-line-editing\">"@ + escape_seq(line) + "</span>"@,
                false)
            } else {
                ("<span class=\"math-block-line\">"@ + escape_seq(line) + "</span>"@, false)
            }
        } else if t.len() == 0 {
            ("<br>"@, false)
        } else if is_hr_line(line) {
            if editing {
                ("<span class=\"hr\">"@ + escape_seq(line) + "</span>"@, false)
            } else {
                ("<span class=\"hr\">───────────────────────────────────────</span>"@, false)
            }
        } else if header_parse(line) is Some {
            let h = header_parse(line)->0;
            if editing {
                ("<span class=\"heading h"@ + dec_str(h.0) + "\">"@ + line.subrange(0, h.0)
                    + " "@ + inline_markers_spec(h.1) + "</span>"@, false)
            } else {
                ("<span class=\"heading h"@ + dec_str(h.0) + "\">"@ + inline_hidden_spec(h.1)
                    + "</span>"@, false)
            }
        } else if list_parse(line) is Some {
            render_list_spec(line, editing)
        } else if quote_parse(line) is Some {
            let q = quote_parse(line)->0;
            if editing {
                ("<span class=\"blockquote\">&gt; "@ + inline_markers_spec(q) + "</span>"@, false)
            } else {
                ("<span class=\"blockquote\">"@ + inline_hidden_spec(q) + "</span>"@, false)
            }
        } else {
            if editing {
                (inline_markers_spec(line), false)
            } else {
                (inline_hidden_spec(line), false)
            }
        }
    }
}

/// A request whose line index lies within its snapshot: the engine's sole
/// precondition.
pub open spec fn request_valid(rq: RenderRequest) -> bool {
    rq.line_index < rq.all_lines@.len()
}

/// What rendering a request yields.
pub open spec fn rendered_spec(rq: RenderRequest) -> (Seq<char>, bool) {
    render_line_spec(rq.line@, rq.line_index as int, rq.all_lines.deep_view(), rq.is_editing)
}

/// Whether no line break occurs in `t` from position `lo` on.
fn no_newline_from(t: &Vec<char>, lo: usize) -> (b: bool)
    requires
        lo <= t@.len(),
    ensures
        b == !has_char(t@.subrange(lo as int, t@.len() as int), '\n'),
{
    let ghost sub = t@.subrange(lo as int, t@.len() as int);
    match find_char(t, '\n', lo) {
        Some(j) => {
            proof {
                crate::text::lemma_find_char_from(t@, '\n', lo as int);
                assert(sub[j - lo] == '\n');
            }
            false
        },
        None => {
            proof {
                crate::text::lemma_find_char_from(t@, '\n', lo as int);
                assert(forall|k: int| #![auto] 0 <= k < sub.len() ==> sub[k] == t@[lo + k]);
            }
            true
        },
    }
}

/// Executable parse of [`ws_then_text`]: the range of the text inside `t`.
fn ws_text_tail(t: &Vec<char>, p: usize) -> (r: Option<(usize, usize)>)
    requires
        p <= t@.len(),
    ensures
        match r {
            Some(se) => se.0 <= se.1 <= t@.len() && ws_then_text(t@, p as int) == Some(
                t@.subrange(se.0 as int, se.1 as int),
            ),
            None => ws_then_text(t@, p as int) is None,
        },
{
    if p >= t.len() {
        return None;
    }
    let w = ws_run(t, p);
    if w == 0 {
        return None;
    }
    if p + w < t.len() {
        if no_newline_from(t, p + w) {
            Some((p + w, t.len()))
        } else {
            None
        }
    } else {
        if w >= 2 && t[p + w - 1] != '\n' {
            Some((p + w - 1, t.len()))
        } else {
            None
        }
    }
}


/// Render a single markdown line to HTML.
pub fn render_markdown_line(request: RenderRequest) -> (r: LineRenderResult)
    requires
        request_valid(request),
    ensures
        r.html@ == rendered_spec(request).0,
        r.is_code_block_boundary == rendered_spec(request).1,
{
    render_line_ref(&request)
}

/// The dispatcher proper, on a borrowed request.
#[verifier::rlimit(60)]
#[verifier::spinoff_prover]
fn render_line_ref(request: &RenderRequest) -> (r: LineRenderResult)
    requires
        request_valid(*request),
    ensures
        r.html@ == rendered_spec(*request).0,
        r.is_code_block_boundary == rendered_spec(*request).1,
{
    let ghost expected = rendered_spec(*request);
    let editing = request.is_editing;
    let cs = to_chars(request.line.as_str());
    let ghost lv = cs@;
    let (lo, hi) = trim_bounds(&cs);
    let tv = subvec(&cs, lo, hi);
    let (c_in, c_start, c_end) = is_in_code_block(request.line_index, &request.all_lines);

    if c_start {
        let mut out: Vec<char> = Vec::new();
        append_str(&mut out, "<span class=\"code-block-start\" data-lang=\"");
        if tv.len() >= 3 && tv[0] == '`' && tv[1] == '`' && tv[2] == '`' {
            let wr = word_run(&tv, 3);
            append_range(&mut out, &tv, 3, 3 + wr);
            proof {
                assert(fence_lang(tv@) == tv@.subrange(3, 3 + word_run_len(tv@, 3)));
            }
        } else {
            proof {
                assert(fence_lang(tv@) =~= Seq::<char>::empty());
            }
        }
        if editing {
            append_str(&mut out, "\">");
            append_escaped(&mut out, &tv);
            append_str(&mut out, "</span>");
        } else {
            append_str(&mut out, "\"></span>");
        }
        proof {
            assert(out@ =~= expected.0);
        }
        return LineRenderResult { html: chars_to_string(&out), is_code_block_boundary: true };
    }
    if c_end {
        let mut out: Vec<char> = Vec::new();
        if editing {
            append_str(&mut out, "<span class=\"code-block-end\">");
            append_escaped(&mut out, &tv);
            append_str(&mut out, "</span>");
        } else {
            append_str(&mut out, "<span class=\"code-block-end\"></span>");
        }
        proof {
            assert(out@ =~= expected.0);
        }
        return LineRenderResult { html: chars_to_string(&out), is_code_block_boundary: true };
    }
    if c_in {
        let mut out: Vec<char> = Vec::new();
        if editing {
            append_str(&mut out, "<span class=\"code-block-line-editing\">");
            append_escaped(&mut out, &cs);
            append_str(&mut out, "</span>");
        } else {
            append_str(&mut out, "<code class=\"code-block-line\">");
            append_escaped(&mut out, &cs);
            append_str(&mut out, "</code>");
        }
        proof {
            assert(out@ =~= expected.0);
        }
        return LineRenderResult { html: chars_to_string(&out), is_code_block_boundary: false };
    }

    let (m_in, m_start, m_end) = is_in_math_block(request.line_index, &request.all_lines);
    if m_start {
        let mut out: Vec<char> = Vec::new();
        if editing {
            append_str(&mut out, "<span class=\"math-block-start\">");
            append_escaped(&mut out, &tv);
            append_str(&mut out, "</span>");
        } else {
            append_str(&mut out, "<span class=\"math-block-start\"></span>");
        }
        proof {
            assert(out@ =~= expected.0);
        }
        return LineRenderResult { html: chars_to_string(&out), is_code_block_boundary: true };
    }
    if m_end {
        let mut out: Vec<char> = Vec::new();
        if editing {
            append_str(&mut out, "<span class=\"math-block-end\">");
            append_escaped(&mut out, &tv);
            append_str(&mut out, "</span>");
        } else {
            append_str(&mut out, "<span class=\"math-block-end\"></span>");
        }
        proof {
            assert(out@ =~= expected.0);
        }
        return LineRenderResult { html: chars_to_string(&out), is_code_block_boundary: true };
    }
    if m_in {
        let mut out: Vec<char> = Vec::new();
        if editing {
            append_str(&mut out, "<span class=\"math-block-line-editing\">");
            append_escaped(&mut out, &cs);
            append_str(&mut out, "</span>");
        } else {
            append_str(&mut out, "<span class=\"math-block-line\">");
            append_escaped(&mut out, &cs);
            append_str(&mut out, "</span>");
        }
        proof {
            assert(out@ =~= expected.0);
        }
        return LineRenderResult { html: chars_to_string(&out), is_code_block_boundary: false };
    }

    // Blank line
    if hi - lo == 0 {
        let mut out: Vec<char> = Vec::new();
        append_str(&mut out, "<br>");
        proof {
            assert(trim_spec(lv).len() == 0);
            assert(out@ =~= expected.0);
        }
        return LineRenderResult { html: chars_to_string(&out), is_code_block_boundary: false };
    }

    // Horizontal rule
    let hr = tv.len() >= 3 && (char_run(&tv, '-', 0) == tv.len() || char_run(&tv, '*', 0)
        == tv.len() || char_run(&tv, '_', 0) == tv.len());
    if hr {
        let mut out: Vec<char> = Vec::new();
        if editing {
            append_str(&mut out, "<span class=\"hr\">");
            append_escaped(&mut out, &cs);
            append_str(&mut out, "</span>");
        } else {
            append_str(&mut out, "<span class=\"hr\">───────────────────────────────────────</span>");
        }
        proof {
            assert(is_hr_line(lv));
            assert(out@ =~= expected.0);
        }
        return LineRenderResult { html: chars_to_string(&out), is_code_block_boundary: false };
    }
    proof {
        assert(!is_hr_line(lv));
    }

    // Header
    let n = char_run(&cs, '#', 0);
    if n >= 1 && n <= 6 {
        match ws_text_tail(&cs, n) {
            Some((ts, te)) => {
                let txt = subvec(&cs, ts, te);
                proof {
                    assert(header_parse(lv) == Some((n as int, txt@)));
                }
                let mut out: Vec<char> = Vec::new();
                append_str(&mut out, "<span class=\"heading h");
                append_dec(&mut out, n as u128);
                append_str(&mut out, "\">");
                if editing {
                    append_range(&mut out, &cs, 0, n);
                    append_str(&mut out, " ");
                    let body = inline_markers_chars(&txt);
                    append_chars(&mut out, &body);
                } else {
                    let body = inline_hidden_chars(&txt);
                    append_chars(&mut out, &body);
                }
                append_str(&mut out, "</span>");
                proof {
                    assert(out@ =~= expected.0);
                }
                return LineRenderResult {
                    html: chars_to_string(&out),
                    is_code_block_boundary: false,
                };
            },
            None => {
                proof {
                    assert(header_parse(lv) is None);
                }
            },
        }
    } else {
        proof {
            assert(header_parse(lv) is None);
        }
    }

    // List item
    let k = ws_run(&cs, 0);
    if k < cs.len() && (cs[k] == '-' || cs[k] == '*' || cs[k] == '+') {
        match ws_text_tail(&cs, k + 1) {
            Some((ts, te)) => {
                let txt = subvec(&cs, ts, te);
                proof {
                    assert(lv.subrange(k as int, k + 1) =~= seq![lv[k as int]]);
                    assert(list_parse(lv) == Some(
                        (k as int, lv.subrange(k as int, k + 1), txt@, false),
                    ));
                }
                let r = finish_list_item(&cs, &txt, k, k, k + 1, false, editing);
                proof {
                    assert(r.html@ == expected.0);
                }
                return r;
            },
            None => {
                proof {
                    assert(list_parse(lv) is None);
                }
            },
        }
    } else {
        let d = digit_run(&cs, k);
        if d >= 1 && k + d < cs.len() && cs[k + d] == '.' {
            match ws_text_tail(&cs, k + d + 1) {
                Some((ts, te)) => {
                    let txt = subvec(&cs, ts, te);
                    proof {
                        assert(list_parse(lv) == Some(
                            (k as int, lv.subrange(k as int, k + d + 1), txt@, true),
                        ));
                    }
                    let r = finish_list_item(&cs, &txt, k, k, k + d + 1, true, editing);
                    proof {
                        assert(r.html@ == expected.0);
                    }
                    return r;
                },
                None => {
                    proof {
                        assert(list_parse(lv) is None);
                    }
                },
            }
        } else {
            proof {
                assert(list_parse(lv) is None);
            }
        }
    }

    // Blockquote
    if cs.len() > 0 {
        let first = cs[0];
        if first == '>' {
            let w = ws_run(&cs, 1);
            let mut qlo: usize = 0;
            let mut have = false;
            if 1 + w < cs.len() {
                if no_newline_from(&cs, 1 + w) {
                    qlo = 1 + w;
                    have = true;
                }
            } else {
                if w >= 1 && cs[w] != '\n' {
                    qlo = w;
                    have = true;
                }
            }
            if have {
                let txt = subvec(&cs, qlo, cs.len());
                proof {
                    assert(quote_parse(lv) == Some(txt@));
                }
                let mut out: Vec<char> = Vec::new();
                if editing {
                    append_str(&mut out, "<span class=\"blockquote\">&gt; ");
                    let body = inline_markers_chars(&txt);
                    append_chars(&mut out, &body);
                } else {
                    append_str(&mut out, "<span class=\"blockquote\">");
                    let body = inline_hidden_chars(&txt);
                    append_chars(&mut out, &body);
                }
                append_str(&mut out, "</span>");
                proof {
                    assert(out@ =~= expected.0);
                }
                return LineRenderResult {
                    html: chars_to_string(&out),
                    is_code_block_boundary: false,
                };
            }
            proof {
                assert(quote_parse(lv) is None);
            }
        } else {
            proof {
                assert(quote_parse(lv) is None);
            }
        }
    } else {
        proof {
            assert(quote_parse(lv) is None);
        }
    }

    // Regular paragraph
    let out = if editing {
        inline_markers_chars(&cs)
    } else {
        inline_hidden_chars(&cs)
    };
    proof {
        assert(out@ =~= expected.0);
    }
    LineRenderResult { html: chars_to_string(&out), is_code_block_boundary: false }
}

/// Assembles the HTML fragment of a list item whose indent is `cs[0..k]`
/// and whose marker is `cs[mlo..mhi]`.
#[verifier::rlimit(60)]
#[verifier::spinoff_prover]
fn finish_list_item(
    cs: &Vec<char>,
    txt: &Vec<char>,
    k: usize,
    mlo: usize,
    mhi: usize,
    ordered: bool,
    editing: bool,
) -> (r: LineRenderResult)
    requires
        k <= mlo <= mhi <= cs@.len(),
        list_parse(cs@) == Some((k as int, cs@.subrange(mlo as int, mhi as int), txt@, ordered)),
    ensures
        r.html@ == render_list_spec(cs@, editing).0,
        r.is_code_block_boundary == render_list_spec(cs@, editing).1,
{
    let ghost l = list_parse(cs@)->0;
    let mut out: Vec<char> = Vec::new();
    if editing {
        append_str(&mut out, "<span class=\"list-item\">");
        append_range(&mut out, cs, 0, k);
        append_range(&mut out, cs, mlo, mhi);
        append_str(&mut out, " ");
        let body = inline_markers_chars(txt);
        append_chars(&mut out, &body);
        append_str(&mut out, "</span>");
    } else {
        append_str(&mut out, "<span class=\"list-item\" style=\"padding-left: ");
        append_dec(&mut out, (k as u128) * 20);
        append_str(&mut out, "px\"><span class=\"list-marker ");
        if ordered {
            append_str(&mut out, "ordered");
        } else {
            append_str(&mut out, "unordered");
        }
        append_str(&mut out, "\">");
        if ordered {
            append_range(&mut out, cs, mlo, mhi);
        } else {
            append_str(&mut out, "•");
        }
        append_str(&mut out, "</span>");
        let body = inline_hidden_chars(txt);
        append_chars(&mut out, &body);
        append_str(&mut out, "</span>");
        proof {
            assert(((k as u128) * 20) as int == 20 * (k as int));
        }
    }
    proof {
        assert(out@ =~= render_list_spec(cs@, editing).0);
    }
    LineRenderResult { html: chars_to_string(&out), is_code_block_boundary: false }
}

/// The list-item branch of [`render_line_spec`], on its own for reuse.
pub open spec fn render_list_spec(line: Seq<char>, editing: bool) -> (Seq<char>, bool) {
    let l = list_parse(line)->0;
    if editing {
        ("<span class=\"list-item\">"@ + line.subrange(0, l.0) + l.1 + " "@
            + inline_markers_spec(l.2) + "</span>"@, false)
    } else {
        let cls: Seq<char> = if l.3 {
            "ordered"@
        } else {
            "unordered"@
        };
        let disp: Seq<char> = if l.3 {
            l.1
        } else {
            "•"@
        };
        ("<span class=\"list-item\" style=\"padding-left: "@ + dec_str(20 * l.0)
            + "px\"><span class=\"list-marker "@ + cls + "\">"@ + disp + "</span>"@
            + inline_hidden_spec(l.2) + "</span>"@, false)
    }
}


/// Relies on rayon's `into_par_iter().map(..).collect()` over a `Vec`: the
/// indexed parallel iterator applies [`render_markdown_line`] to every
/// request and collects the results in input order.
#[verifier::external_body]
fn render_batch_parallel(requests: Vec<RenderRequest>) -> (r: Vec<LineRenderResult>)
    requires
        forall|i: int| #![auto] 0 <= i < requests@.len() ==> request_valid(requests@[i]),
    ensures
        r@.len() == requests@.len(),
        forall|i: int|
            #![auto]
            0 <= i < requests@.len() ==> r@[i].html@ == rendered_spec(requests@[i]).0
                && r@[i].is_code_block_boundary == rendered_spec(requests@[i]).1,
{
    requests.into_par_iter().map(render_markdown_line).collect()
}

/// Applies the renderer across an ordered list of requests, preserving
/// input order in the output.  Batches of more than fifty entries may be
/// distributed over a worker pool, since every request is self-contained;
/// smaller ones are rendered sequentially to avoid dispatch overhead.
pub fn render_markdown_batch(requests: Vec<RenderRequest>) -> (r: Vec<LineRenderResult>)
    requires
        forall|i: int| #![auto] 0 <= i < requests@.len() ==> request_valid(requests@[i]),
    ensures
        r@.len() == requests@.len(),
        forall|i: int|
            #![auto]
            0 <= i < requests@.len() ==> r@[i].html@ == rendered_spec(requests@[i]).0
                && r@[i].is_code_block_boundary == rendered_spec(requests@[i]).1,
{
    if requests.len() > 50 {
        render_batch_parallel(requests)
    } else {
        let mut out: Vec<LineRenderResult> = Vec::new();
        let n = requests.len();
        for i in 0..n
            invariant
                n == requests@.len(),
                forall|j: int| #![auto] 0 <= j < requests@.len() ==> request_valid(requests@[j]),
                out@.len() == i,
                forall|j: int|
                    #![auto]
                    0 <= j < i ==> out@[j].html@ == rendered_spec(requests@[j]).0
                        && out@[j].is_code_block_boundary == rendered_spec(requests@[j]).1,
        {
            let one = render_line_ref(&requests[i]);
            out.push(one);
        }
        out
    }
}

} // verus!
