//! Block detection for markdown rendering.
//!
//! A fence marker line toggles membership in a multi-line block: a trimmed
//! line beginning with three backticks opens or closes a fenced code block,
//! and a trimmed line that is exactly `$$` opens or closes a math block.
//! Classification of a line is a pure function of the line index and the
//! document snapshot, recomputed from the start of the document on every
//! call.

use vstd::prelude::*;

use crate::text::{to_chars, trim_bounds, trim_spec};

verus! {

/// A code fence marker: the trimmed line begins with three backticks.
pub open spec fn is_code_fence(line: Seq<char>) -> bool {
    let t = trim_spec(line);
    t.len() >= 3 && t[0] == '`' && t[1] == '`' && t[2] == '`'
}

/// A math fence marker: the trimmed line is exactly `$$`.
pub open spec fn is_math_fence(line: Seq<char>) -> bool {
    let t = trim_spec(line);
    t.len() == 2 && t[0] == '$' && t[1] == '$'
}

/// Whether line `i` lies inside a code block opened by the lines before it:
/// the parity of the code fence markers among lines `0..i`.
pub open spec fn in_code_before(lines: Seq<Seq<char>>, i: int) -> bool
    decreases i,
{
    if i <= 0 {
        false
    } else if is_code_fence(lines[i - 1]) {
        !in_code_before(lines, i - 1)
    } else {
        in_code_before(lines, i - 1)
    }
}

/// Whether line `i` lies inside a math block opened by the lines before it.
pub open spec fn in_math_before(lines: Seq<Seq<char>>, i: int) -> bool
    decreases i,
{
    if i <= 0 {
        false
    } else if is_math_fence(lines[i - 1]) {
        !in_math_before(lines, i - 1)
    } else {
        in_math_before(lines, i - 1)
    }
}

/// The code-block classification of line `i`: `(in_block, is_start, is_end)`.
/// A fence line is itself reported in-block, as a start if the toggle was
/// off just before it and as an end if it was on.
pub open spec fn code_block_state(i: int, lines: Seq<Seq<char>>) -> (bool, bool, bool) {
    if is_code_fence(lines[i]) {
        (true, !in_code_before(lines, i), in_code_before(lines, i))
    } else {
        (in_code_before(lines, i), false, false)
    }
}

/// The math-block classification of line `i`, like [`code_block_state`].
pub open spec fn math_block_state(i: int, lines: Seq<Seq<char>>) -> (bool, bool, bool) {
    if is_math_fence(lines[i]) {
        (true, !in_math_before(lines, i), in_math_before(lines, i))
    } else {
        (in_math_before(lines, i), false, false)
    }
}

/// Executable check for [`is_code_fence`].
pub fn code_fence_line(line: &String) -> (b: bool)
    ensures
        b == is_code_fence(line@),
{
    let cs = to_chars(line.as_str());
    let (lo, hi) = trim_bounds(&cs);
    if hi - lo >= 3 {
        let b = cs[lo] == '`' && cs[lo + 1] == '`' && cs[lo + 2] == '`';
        proof {
            assert(trim_spec(line@)[0] == cs@[lo as int]);
            assert(trim_spec(line@)[1] == cs@[lo + 1]);
            assert(trim_spec(line@)[2] == cs@[lo + 2]);
        }
        b
    } else {
        false
    }
}

/// Executable check for [`is_math_fence`].
pub fn math_fence_line(line: &String) -> (b: bool)
    ensures
        b == is_math_fence(line@),
{
    let cs = to_chars(line.as_str());
    let (lo, hi) = trim_bounds(&cs);
    if hi - lo == 2 {
        let b = cs[lo] == '$' && cs[lo + 1] == '$';
        proof {
            assert(trim_spec(line@)[0] == cs@[lo as int]);
            assert(trim_spec(line@)[1] == cs@[lo + 1]);
        }
        b
    } else {
        false
    }
}

/// Check if a line is inside a code block.
///
/// Returns a tuple of `(in_block, is_start, is_end)`:
/// - `in_block`: true if the line is inside a code block,
/// - `is_start`: true if this line starts a code block,
/// - `is_end`: true if this line ends a code block.
pub fn is_in_code_block(line_index: usize, all_lines: &Vec<String>) -> (r: (bool, bool, bool))
    requires
        line_index < all_lines@.len(),
    ensures
        r == code_block_state(line_index as int, all_lines.deep_view()),
{
    let ghost dv = all_lines.deep_view();
    let mut in_block = false;
    let mut i: usize = 0;
    while i < line_index
        invariant
            dv == all_lines.deep_view(),
            line_index < all_lines@.len(),
            i <= line_index,
            in_block == in_code_before(dv, i as int),
        decreases line_index - i,
    {
        proof {
            assert(dv[i as int] == all_lines@[i as int]@);
        }
        if code_fence_line(&all_lines[i]) {
            in_block = !in_block;
        }
        i += 1;
    }
    proof {
        assert(dv[line_index as int] == all_lines@[line_index as int]@);
    }
    if code_fence_line(&all_lines[line_index]) {
        (true, !in_block, in_block)
    } else {
        (in_block, false, false)
    }
}

/// Check if a line is inside a math block.
///
/// Returns a tuple of `(in_block, is_start, is_end)` as in
/// [`is_in_code_block`].
pub fn is_in_math_block(line_index: usize, all_lines: &Vec<String>) -> (r: (bool, bool, bool))
    requires
        line_index < all_lines@.len(),
    ensures
        r == math_block_state(line_index as int, all_lines.deep_view()),
{
    let ghost dv = all_lines.deep_view();
    let mut in_block = false;
    let mut i: usize = 0;
    while i < line_index
        invariant
            dv == all_lines.deep_view(),
            line_index < all_lines@.len(),
            i <= line_index,
            in_block == in_math_before(dv, i as int),
        decreases line_index - i,
    {
        proof {
            assert(dv[i as int] == all_lines@[i as int]@);
        }
        if math_fence_line(&all_lines[i]) {
            in_block = !in_block;
        }
        i += 1;
    }
    proof {
        assert(dv[line_index as int] == all_lines@[line_index as int]@);
    }
    if math_fence_line(&all_lines[line_index]) {
        (true, !in_block, in_block)
    } else {
        (in_block, false, false)
    }
}

/// Every fence marker line is classified as a boundary of exactly one kind:
/// it is in-block, and exactly one of start and end holds, never both and
/// never neither.  A non-fence line is never reported as a boundary.
pub proof fn lemma_fence_classification(i: int, lines: Seq<Seq<char>>)
    requires
        0 <= i < lines.len(),
    ensures
        is_code_fence(lines[i]) ==> {
            let r = code_block_state(i, lines);
            r.0 && (r.1 != r.2)
        },
        !is_code_fence(lines[i]) ==> {
            let r = code_block_state(i, lines);
            !r.1 && !r.2
        },
        is_math_fence(lines[i]) ==> {
            let r = math_block_state(i, lines);
            r.0 && (r.1 != r.2)
        },
        !is_math_fence(lines[i]) ==> {
            let r = math_block_state(i, lines);
            !r.1 && !r.2
        },
{
}

proof fn lemma_in_code_before_prefix(i: int, lines1: Seq<Seq<char>>, lines2: Seq<Seq<char>>)
    requires
        0 <= i,
        forall|k: int| 0 <= k < i ==> lines1[k] == lines2[k],
    ensures
        in_code_before(lines1, i) == in_code_before(lines2, i),
    decreases i,
{
    if i > 0 {
        lemma_in_code_before_prefix(i - 1, lines1, lines2);
    }
}

proof fn lemma_in_math_before_prefix(i: int, lines1: Seq<Seq<char>>, lines2: Seq<Seq<char>>)
    requires
        0 <= i,
        forall|k: int| 0 <= k < i ==> lines1[k] == lines2[k],
    ensures
        in_math_before(lines1, i) == in_math_before(lines2, i),
    decreases i,
{
    if i > 0 {
        lemma_in_math_before_prefix(i - 1, lines1, lines2);
    }
}

/// Classification of line `i` is a pure function of `i` and the lines up to
/// and including `i`: two snapshots that agree on lines `0..=i` classify
/// line `i` identically, however their suffixes differ.  In particular,
/// re-classifying an unchanged snapshot is idempotent.
pub proof fn lemma_classification_depends_on_prefix(
    i: int,
    lines1: Seq<Seq<char>>,
    lines2: Seq<Seq<char>>,
)
    requires
        0 <= i < lines1.len(),
        i < lines2.len(),
        forall|k: int| 0 <= k <= i ==> lines1[k] == lines2[k],
    ensures
        code_block_state(i, lines1) == code_block_state(i, lines2),
        math_block_state(i, lines1) == math_block_state(i, lines2),
{
    lemma_in_code_before_prefix(i, lines1, lines2);
    lemma_in_math_before_prefix(i, lines1, lines2);
}

} // verus!
