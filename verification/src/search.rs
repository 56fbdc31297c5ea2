//! Search and replace over text content.
//!
//! A query is turned into a regular-expression pattern — taken verbatim in
//! regex mode, escaped otherwise, wrapped in word boundaries for whole-word
//! search, and prefixed with a case-insensitivity flag when asked — and the
//! pattern is run over the content line by line (for search) or whole (for
//! replacement) by the regex engine.

use vstd::prelude::*;

use crate::text::{append_str, chars_to_string, find_char, find_char_from, subvec, to_chars};

verus! {

/// How a search is to be carried out.
#[derive(Debug, Clone)]
pub struct SearchOptions {
    pub case_sensitive: bool,
    pub whole_word: bool,
    pub use_regex: bool,
}

/// One match: its one-based line and column, its byte length, the matched
/// text, and the full text of the line it lies on.
#[derive(Debug, Clone)]
pub struct SearchMatch {
    pub line: usize,
    pub column: usize,
    pub length: usize,
    pub text: String,
    pub line_text: String,
}

/// The matches found in one file.
#[derive(Debug, Clone)]
pub struct FileSearchResult {
    pub file_path: String,
    pub matches: Vec<SearchMatch>,
}

/// The outcome of a replacement: the new content and how many occurrences
/// were replaced.
#[derive(Debug, Clone)]
pub struct ReplaceResult {
    pub new_content: String,
    pub replaced_count: usize,
}

#[verifier::external_type_specification]
#[verifier::external_body]
pub struct ExRegex(regex::Regex);

#[verifier::external_type_specification]
#[verifier::external_body]
pub struct ExRegexError(regex::Error);

// Whether the regex engine accepts `pattern`: the result of
// `regex::Regex::new(pattern).is_ok()`, a function of the pattern alone.
pub uninterp spec fn regex_valid(pattern: Seq<char>) -> bool;

// The pattern a compiled regex was built from, as `regex::Regex::as_str`
// hands it back.
pub uninterp spec fn pattern_of(re: regex::Regex) -> Seq<char>;

// The non-overlapping matches that the regex for `pattern` finds in `text`,
// in order: for each, its starting and ending byte offsets and its text.
// The result of `regex::Regex::find_iter`, a function of pattern and
// haystack alone.
pub uninterp spec fn regex_matches(pattern: Seq<char>, text: Seq<char>) -> Seq<
    (usize, usize, Seq<char>),
>;

// What replacing every match of `pattern` in `text` with `rep` (with `$`
// group expansion) yields: the result of `regex::Regex::replace_all`, a
// function of the three arguments alone.
pub uninterp spec fn regex_replaced(pattern: Seq<char>, text: Seq<char>, rep: Seq<char>) -> Seq<
    char,
>;

/// Relies on `regex::Regex::new`: whether a pattern compiles depends on the
/// pattern alone, and the compiled regex remembers the pattern it was built
/// from (`Regex::as_str` returns it).
#[verifier::external_body]
fn regex_compile(pattern: &str) -> (r: Result<regex::Regex, regex::Error>)
    ensures
        r is Ok == regex_valid(pattern@),
        r matches Ok(re) ==> pattern_of(re) == pattern@,
{
    regex::Regex::new(pattern)
}

/// Relies on the `Display` implementation of `regex::Error` for the
/// human-readable description of a pattern error.
#[verifier::external_body]
fn regex_error_text(e: &regex::Error) -> String {
    e.to_string()
}

/// Relies on `regex::Regex::find_iter`: it yields the non-overlapping
/// matches in order, each with byte offsets `start <= end` into the
/// haystack (whose size, like any Rust allocation, stays below
/// `isize::MAX`) and with `Match::as_str` equal to the matched text.
#[verifier::external_body]
fn find_matches(re: &regex::Regex, text: &str) -> (r: Vec<(usize, usize, String)>)
    ensures
        r@.len() == regex_matches(pattern_of(*re), text@).len(),
        forall|i: int|
            #![trigger r@[i]]
            0 <= i < r@.len() ==> r@[i].0 == regex_matches(pattern_of(*re), text@)[i].0
                && r@[i].1 == regex_matches(pattern_of(*re), text@)[i].1 && r@[i].2@
                == regex_matches(pattern_of(*re), text@)[i].2 && r@[i].0 <= r@[i].1 && r@[i].1
                < usize::MAX,
{
    re.find_iter(text).map(|m| (m.start(), m.end(), m.as_str().to_string())).collect()
}

/// Relies on `regex::Regex::replace_all` with a string replacer: it
/// replaces every non-overlapping match, expanding `$` group references in
/// the replacement.
#[verifier::external_body]
fn regex_replace_all(re: &regex::Regex, text: &str, rep: &str) -> (r: String)
    ensures
        r@ == regex_replaced(pattern_of(*re), text@, rep@),
{
    re.replace_all(text, rep).to_string()
}

/// A character the regex language gives meaning to, which
/// [`escape_meta_spec`] escapes.
pub open spec fn is_meta_char(c: char) -> bool {
    ||| c == '\\'
    ||| c == '.'
    ||| c == '+'
    ||| c == '*'
    ||| c == '?'
    ||| c == '('
    ||| c == ')'
    ||| c == '|'
    ||| c == '['
    ||| c == ']'
    ||| c == '{'
    ||| c == '}'
    ||| c == '^'
    ||| c == '$'
    ||| c == '#'
    ||| c == '&'
    ||| c == '-'
    ||| c == '~'
}

pub open spec fn escape_meta_from(s: Seq<char>, i: int) -> Seq<char>
    decreases s.len() - i,
{
    if i < 0 || i >= s.len() {
        Seq::empty()
    } else if is_meta_char(s[i]) {
        seq!['\\', s[i]] + escape_meta_from(s, i + 1)
    } else {
        seq![s[i]] + escape_meta_from(s, i + 1)
    }
}

/// The query with every regex meta character escaped, so that it matches
/// itself literally.
pub open spec fn escape_meta_spec(s: Seq<char>) -> Seq<char> {
    escape_meta_from(s, 0)
}

/// Relies on `regex::escape`: it prepends a backslash to each meta
/// character (`\ . + * ? ( ) | [ ] { } ^ $ # & - ~`) and keeps every other
/// character unchanged.
#[verifier::external_body]
fn regex_escape(s: &str) -> (r: String)
    ensures
        r@ == escape_meta_spec(s@),
{
    regex::escape(s)
}

/// The pattern a query is searched as, before the case flag: itself in
/// regex mode, otherwise escaped, with word boundaries around it for a
/// whole-word search.
pub open spec fn base_pattern(query: Seq<char>, o: SearchOptions) -> Seq<char> {
    if o.use_regex {
        query
    } else if o.whole_word {
        "\\b"@ + escape_meta_spec(query) + "\\b"@
    } else {
        escape_meta_spec(query)
    }
}

/// The full pattern: the base pattern, case-insensitive unless asked
/// otherwise.
pub open spec fn full_pattern(query: Seq<char>, o: SearchOptions) -> Seq<char> {
    if o.case_sensitive {
        base_pattern(query, o)
    } else {
        "(?i)"@ + base_pattern(query, o)
    }
}

/// Builds [`full_pattern`] as a string.
fn build_pattern(query: &str, options: &SearchOptions) -> (p: String)
    ensures
        p@ == full_pattern(query@, *options),
{
    let mut v: Vec<char> = Vec::new();
    if !options.case_sensitive {
        append_str(&mut v, "(?i)");
    }
    if options.use_regex {
        append_str(&mut v, query);
    } else {
        let escaped = regex_escape(query);
        if options.whole_word {
            append_str(&mut v, "\\b");
        }
        append_str(&mut v, escaped.as_str());
        if options.whole_word {
            append_str(&mut v, "\\b");
        }
    }
    proof {
        assert(v@ =~= full_pattern(query@, *options));
    }
    chars_to_string(&v)
}

/// The stripped form of one raw line: a trailing carriage return that stood
/// before the line feed is dropped.
pub open spec fn strip_cr(p: Seq<char>) -> Seq<char> {
    if p.len() > 0 && p[p.len() - 1] == '\r' {
        p.drop_last()
    } else {
        p
    }
}

/// The lines of `s` from position `i` on, split at line feeds, each with a
/// carriage return before the line feed dropped; a final line ending is
/// optional and yields no empty last line, the way `str::lines` splits.
pub open spec fn split_lines_from(s: Seq<char>, i: int) -> Seq<Seq<char>>
    decreases s.len() - i,
    via split_lines_decreases
{
    if i < 0 || i >= s.len() {
        Seq::empty()
    } else {
        match find_char_from(s, '\n', i) {
            Some(e) => seq![strip_cr(s.subrange(i, e))] + split_lines_from(s, e + 1),
            None => seq![s.subrange(i, s.len() as int)],
        }
    }
}

#[via_fn]
proof fn split_lines_decreases(s: Seq<char>, i: int) {
    if 0 <= i < s.len() && find_char_from(s, '\n', i) is Some {
        crate::text::lemma_find_char_from(s, '\n', i);
    }
}

/// The lines of `s`, as `str::lines` yields them.
pub open spec fn split_lines(s: Seq<char>) -> Seq<Seq<char>> {
    split_lines_from(s, 0)
}

/// The lines of `content`, each as its own string.
pub fn split_content_lines(content: &str) -> (r: Vec<String>)
    ensures
        r.deep_view() == split_lines(content@),
{
    let cs = to_chars(content);
    let mut out: Vec<String> = Vec::new();
    let mut i: usize = 0;
    while i < cs.len()
        invariant
            i <= cs@.len(),
            split_lines(cs@) =~= out.deep_view() + split_lines_from(cs@, i as int),
        decreases cs@.len() - i,
    {
        let ghost prev = out.deep_view();
        let ghost gi = i as int;
        match find_char(&cs, '\n', i) {
            Some(e) => {
                proof {
                    crate::text::lemma_find_char_from(cs@, '\n', gi);
                }
                let hi = if e > i && cs[e - 1] == '\r' {
                    e - 1
                } else {
                    e
                };
                let piece = subvec(&cs, i, hi);
                proof {
                    if e > gi && cs@[e - 1] == '\r' {
                        assert(strip_cr(cs@.subrange(gi, e as int)) =~= cs@.subrange(
                            gi,
                            e - 1,
                        ));
                    } else {
                        assert(strip_cr(cs@.subrange(gi, e as int)) =~= cs@.subrange(
                            gi,
                            e as int,
                        ));
                    }
                }
                out.push(chars_to_string(&piece));
                proof {
                    assert(out.deep_view() =~= prev + seq![piece@]);
                    assert(split_lines_from(cs@, gi) == seq![strip_cr(cs@.subrange(gi, e as int))]
                        + split_lines_from(cs@, e + 1));
                    assert(out.deep_view() + split_lines_from(cs@, e + 1) =~= prev
                        + split_lines_from(cs@, gi));
                }
                i = e + 1;
            },
            None => {
                let piece = subvec(&cs, i, cs.len());
                out.push(chars_to_string(&piece));
                proof {
                    assert(out.deep_view() =~= prev + seq![piece@]);
                    assert(split_lines_from(cs@, gi) == seq![cs@.subrange(gi, cs@.len() as int)]);
                    assert(out.deep_view() + Seq::<Seq<char>>::empty() =~= prev
                        + split_lines_from(cs@, gi));
                }
                i = cs.len();
            },
        }
    }
    proof {
        if i >= cs@.len() {
            assert(split_lines_from(cs@, i as int) =~= Seq::<Seq<char>>::empty());
        }
        assert(out.deep_view() =~= out.deep_view() + Seq::<Seq<char>>::empty());
    }
    out
}


/// The model of one reported match: one-based line and column, byte
/// length, the matched text, and the line text.
pub open spec fn match_model(ln: int, line: Seq<char>, m: (usize, usize, Seq<char>)) -> (
    int,
    int,
    int,
    Seq<char>,
    Seq<char>,
) {
    (ln + 1, m.0 + 1, m.1 - m.0, m.2, line)
}

/// The models of the matches on line `ln`, from the `j`-th match on.
pub open spec fn line_models_from(pattern: Seq<char>, ln: int, line: Seq<char>, j: int) -> Seq<
    (int, int, int, Seq<char>, Seq<char>),
>
    decreases regex_matches(pattern, line).len() - j,
{
    if j < 0 || j >= regex_matches(pattern, line).len() {
        Seq::empty()
    } else {
        seq![match_model(ln, line, regex_matches(pattern, line)[j])] + line_models_from(
            pattern,
            ln,
            line,
            j + 1,
        )
    }
}

/// The models of every match in the content, line by line from line `ln`.
pub open spec fn search_models_from(pattern: Seq<char>, lines: Seq<Seq<char>>, ln: int) -> Seq<
    (int, int, int, Seq<char>, Seq<char>),
>
    decreases lines.len() - ln,
{
    if ln < 0 || ln >= lines.len() {
        Seq::empty()
    } else {
        line_models_from(pattern, ln, lines[ln], 0) + search_models_from(pattern, lines, ln + 1)
    }
}

/// The models of every match of `pattern` in the content's lines, in
/// order: by line, and by position within each line.
pub open spec fn search_models(pattern: Seq<char>, lines: Seq<Seq<char>>) -> Seq<
    (int, int, int, Seq<char>, Seq<char>),
> {
    search_models_from(pattern, lines, 0)
}

/// Whether a reported match agrees with its model.
pub open spec fn match_fits(sm: SearchMatch, m: (int, int, int, Seq<char>, Seq<char>)) -> bool {
    &&& sm.line == m.0
    &&& sm.column == m.1
    &&& sm.length == m.2
    &&& sm.text@ == m.3
    &&& sm.line_text@ == m.4
}

/// Search for a query in text content.
///
/// An empty query yields no matches.  Otherwise the query is searched line
/// by line as the pattern the options call for; the search succeeds
/// exactly when that pattern compiles, and its matches are reported in
/// order, with one-based line and column numbers.
#[verifier::rlimit(60)]
#[verifier::spinoff_prover]
pub fn search_in_content(query: String, content: String, options: SearchOptions) -> (r: Result<
    Vec<SearchMatch>,
    String,
>)
    ensures
        query@.len() == 0 ==> (r matches Ok(v) && v@.len() == 0),
        query@.len() > 0 ==> r is Ok == regex_valid(full_pattern(query@, options)),
        query@.len() > 0 ==> (r matches Ok(v) ==> v@.len() == search_models(
            full_pattern(query@, options),
            split_lines(content@),
        ).len() && forall|i: int|
            #![trigger v@[i]]
            0 <= i < v@.len() ==> match_fits(
                v@[i],
                search_models(full_pattern(query@, options), split_lines(content@))[i],
            )),
{
    if query.as_str().is_empty() {
        return Ok(Vec::new());
    }
    let pat = build_pattern(query.as_str(), &options);
    let re = match regex_compile(pat.as_str()) {
        Ok(re) => re,
        Err(e) => {
            return Err(regex_error_text(&e));
        },
    };
    let ghost pattern = full_pattern(query@, options);
    let lines = split_content_lines(content.as_str());
    let ghost lsv = lines.deep_view();
    let ghost total = search_models(pattern, lsv);
    let mut results: Vec<SearchMatch> = Vec::new();
    let ghost mut done: Seq<(int, int, int, Seq<char>, Seq<char>)> = Seq::empty();
    let n = lines.len();
    let mut ln: usize = 0;
    while ln < n
        invariant
            n == lines@.len(),
            lsv == lines.deep_view(),
            ln <= n,
            pattern_of(re) == pattern,
            total == search_models(pattern, lsv),
            done + search_models_from(pattern, lsv, ln as int) == total,
            results@.len() == done.len(),
            forall|i: int|
                #![trigger results@[i]]
                0 <= i < done.len() ==> match_fits(results@[i], done[i]),
        decreases n - ln,
    {
        let ghost lv = lsv[ln as int];
        proof {
            assert(lv == lines@[ln as int]@);
            assert(search_models_from(pattern, lsv, ln as int) == line_models_from(
                pattern,
                ln as int,
                lv,
                0,
            ) + search_models_from(pattern, lsv, ln + 1));
        }
        let ms = find_matches(&re, lines[ln].as_str());
        let m_count = ms.len();
        let mut j: usize = 0;
        while j < m_count
            invariant
                n == lines@.len(),
                lsv == lines.deep_view(),
                ln < n,
                lv == lsv[ln as int],
                lv == lines@[ln as int]@,
                pattern_of(re) == pattern,
                total == search_models(pattern, lsv),
                m_count == ms@.len(),
                ms@.len() == regex_matches(pattern, lv).len(),
                forall|i: int|
                    #![trigger ms@[i]]
                    0 <= i < ms@.len() ==> ms@[i].0 == regex_matches(pattern, lv)[i].0
                        && ms@[i].1 == regex_matches(pattern, lv)[i].1 && ms@[i].2@
                        == regex_matches(pattern, lv)[i].2 && ms@[i].0 <= ms@[i].1 && ms@[i].1
                        < usize::MAX,
                j <= m_count,
                done + line_models_from(pattern, ln as int, lv, j as int) + search_models_from(
                    pattern,
                    lsv,
                    ln + 1,
                ) == total,
                results@.len() == done.len(),
                forall|i: int|
                    #![trigger results@[i]]
                    0 <= i < done.len() ==> match_fits(results@[i], done[i]),
            decreases m_count - j,
        {
            let start = ms[j].0;
            let end = ms[j].1;
            let text = ms[j].2.clone();
            let sm = SearchMatch {
                line: ln + 1,
                column: start + 1,
                length: end - start,
                text,
                line_text: lines[ln].clone(),
            };
            proof {
                let gm = regex_matches(pattern, lv)[j as int];
                assert(match_fits(sm, match_model(ln as int, lv, gm)));
                assert(line_models_from(pattern, ln as int, lv, j as int) == seq![
                    match_model(ln as int, lv, gm)
                ] + line_models_from(pattern, ln as int, lv, j + 1));
            }
            results.push(sm);
            proof {
                let gm = regex_matches(pattern, lv)[j as int];
                done = done + seq![match_model(ln as int, lv, gm)];
                assert(done + line_models_from(pattern, ln as int, lv, j + 1)
                    + search_models_from(pattern, lsv, ln + 1) =~= (done.drop_last()
                    + line_models_from(pattern, ln as int, lv, j as int) + search_models_from(
                    pattern,
                    lsv,
                    ln + 1,
                )));
            }
            j += 1;
        }
        proof {
            assert(line_models_from(pattern, ln as int, lv, j as int) =~= Seq::<
                (int, int, int, Seq<char>, Seq<char>),
            >::empty());
            assert(done + search_models_from(pattern, lsv, ln + 1) =~= done + line_models_from(
                pattern,
                ln as int,
                lv,
                j as int,
            ) + search_models_from(pattern, lsv, ln + 1));
        }
        ln += 1;
    }
    proof {
        assert(search_models_from(pattern, lsv, ln as int) =~= Seq::<
            (int, int, int, Seq<char>, Seq<char>),
        >::empty());
        assert(done =~= done + search_models_from(pattern, lsv, ln as int));
    }
    Ok(results)
}

/// Replace all occurrences of a query in content.
///
/// An empty query leaves the content unchanged with a count of zero.
/// Otherwise the replacement succeeds exactly when the pattern the options
/// call for compiles; every match is replaced, and the count reports how
/// many matches there were.
pub fn replace_in_content(
    query: String,
    replacement: String,
    content: String,
    options: SearchOptions,
) -> (r: Result<ReplaceResult, String>)
    ensures
        query@.len() == 0 ==> (r matches Ok(rr) && rr.new_content@ == content@
            && rr.replaced_count == 0),
        query@.len() > 0 ==> r is Ok == regex_valid(full_pattern(query@, options)),
        query@.len() > 0 ==> (r matches Ok(rr) ==> rr.new_content@ == regex_replaced(
            full_pattern(query@, options),
            content@,
            replacement@,
        ) && rr.replaced_count == regex_matches(full_pattern(query@, options), content@).len()),
{
    if query.as_str().is_empty() {
        return Ok(ReplaceResult { new_content: content, replaced_count: 0 });
    }
    let pat = build_pattern(query.as_str(), &options);
    let re = match regex_compile(pat.as_str()) {
        Ok(re) => re,
        Err(e) => {
            return Err(regex_error_text(&e));
        },
    };
    let count = find_matches(&re, content.as_str()).len();
    let new_content = regex_replace_all(&re, content.as_str(), replacement.as_str());
    Ok(ReplaceResult { new_content, replaced_count: count })
}

} // verus!
