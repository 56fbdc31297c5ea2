//! The file tree a folder shows: its entries and their display order —
//! directories first, then files, alphabetically by lowercased name within
//! each group.  Listing a directory is the caller's business; the ordering
//! rule lives here.

use vstd::prelude::*;

use vstd::multiset::Multiset;
use vstd::string::StrSliceExecFns;

verus! {

broadcast use vstd::seq_lib::group_to_multiset_ensures;

/// One entry of a directory listing: what the display order is decided
/// on.
#[derive(Debug, Clone)]
pub struct FileEntry {
    pub name: String,
    pub path: String,
    pub is_dir: bool,
}

// The lowercased form of a string, as `str::to_lowercase` folds it: the
// result depends on the characters alone.
pub uninterp spec fn lower_of(s: Seq<char>) -> Seq<char>;

/// Relies on `str::to_lowercase` for Unicode case folding.
#[verifier::external_body]
fn lowercase(s: &str) -> (r: String)
    ensures
        r@ == lower_of(s@),
{
    s.to_lowercase()
}

/// Lexicographic order on character sequences by scalar value, from
/// position `i` on: the order `String` comparison yields.
pub open spec fn lex_le_from(x: Seq<char>, y: Seq<char>, i: int) -> bool
    decreases x.len() - i,
{
    if i < 0 || i >= x.len() {
        true
    } else if i >= y.len() {
        false
    } else if (x[i] as u32) != (y[i] as u32) {
        (x[i] as u32) < (y[i] as u32)
    } else {
        lex_le_from(x, y, i + 1)
    }
}

/// Lexicographic order on character sequences.
pub open spec fn lex_le(x: Seq<char>, y: Seq<char>) -> bool {
    lex_le_from(x, y, 0)
}

/// The display order of two entries: a directory before a file, and
/// within a group the lowercased names lexicographically.
pub open spec fn entry_le(a: FileEntry, b: FileEntry) -> bool {
    if a.is_dir != b.is_dir {
        a.is_dir
    } else {
        lex_le(lower_of(a.name@), lower_of(b.name@))
    }
}

/// Lexicographic order is total.
proof fn lemma_lex_le_from_total(x: Seq<char>, y: Seq<char>, i: int)
    ensures
        lex_le_from(x, y, i) || lex_le_from(y, x, i),
    decreases x.len() - i,
{
    if 0 <= i && i < x.len() && i < y.len() && (x[i] as u32) == (y[i] as u32) {
        lemma_lex_le_from_total(x, y, i + 1);
    }
}

/// Lexicographic order is transitive.
proof fn lemma_lex_le_from_trans(x: Seq<char>, y: Seq<char>, z: Seq<char>, i: int)
    requires
        lex_le_from(x, y, i),
        lex_le_from(y, z, i),
    ensures
        lex_le_from(x, z, i),
    decreases x.len() - i,
{
    if 0 <= i && i < x.len() {
        if i < y.len() && i < z.len() && (x[i] as u32) == (y[i] as u32) && (y[i] as u32) == (
        z[i] as u32) {
            lemma_lex_le_from_trans(x, y, z, i + 1);
        }
    }
}

/// The display order is total.
pub proof fn lemma_entry_le_total(a: FileEntry, b: FileEntry)
    ensures
        entry_le(a, b) || entry_le(b, a),
{
    lemma_lex_le_from_total(lower_of(a.name@), lower_of(b.name@), 0);
}

/// The display order is transitive.
pub proof fn lemma_entry_le_trans(a: FileEntry, b: FileEntry, c: FileEntry)
    requires
        entry_le(a, b),
        entry_le(b, c),
    ensures
        entry_le(a, c),
{
    if a.is_dir == b.is_dir && b.is_dir == c.is_dir {
        lemma_lex_le_from_trans(lower_of(a.name@), lower_of(b.name@), lower_of(c.name@), 0);
    }
}

/// Executable comparison for [`lex_le`].
fn lex_le_exec(x: &String, y: &String) -> (r: bool)
    ensures
        r == lex_le(x@, y@),
{
    let xs = x.as_str();
    let ys = y.as_str();
    let n = xs.unicode_len();
    let m = ys.unicode_len();
    let mut i: usize = 0;
    while i < n && i < m
        invariant
            xs@ == x@,
            ys@ == y@,
            n == x@.len(),
            m == y@.len(),
            i <= n,
            i <= m,
            lex_le(x@, y@) == lex_le_from(x@, y@, i as int),
        decreases n - i,
    {
        let cx = xs.get_char(i);
        let cy = ys.get_char(i);
        if (cx as u32) != (cy as u32) {
            proof {
                assert(lex_le_from(x@, y@, i as int) == ((x@[i as int] as u32) < (
                y@[i as int] as u32)));
            }
            return (cx as u32) < (cy as u32);
        }
        proof {
            assert(lex_le_from(x@, y@, i as int) == lex_le_from(x@, y@, i + 1));
        }
        i += 1;
    }
    i >= n
}

/// Executable comparison for [`entry_le`], over cached lowercased names.
fn entry_le_exec(a: &FileEntry, ka: &String, b: &FileEntry, kb: &String) -> (r: bool)
    requires
        ka@ == lower_of(a.name@),
        kb@ == lower_of(b.name@),
    ensures
        r == entry_le(*a, *b),
{
    if a.is_dir != b.is_dir {
        a.is_dir
    } else {
        lex_le_exec(ka, kb)
    }
}

/// Sorts a directory's entries into display order: directories first,
/// then files, alphabetically by lowercased name within each group.  The
/// result holds exactly the given entries.
pub fn sort_entries(entries: Vec<FileEntry>) -> (r: Vec<FileEntry>)
    ensures
        r@.to_multiset() == entries@.to_multiset(),
        r@.len() == entries@.len(),
        forall|i: int, j: int| 0 <= i < j < r@.len() ==> entry_le(r@[i], r@[j]),
{
    let ghost orig = entries@;
    let mut rest = entries;
    let mut keys: Vec<String> = Vec::new();
    let n = rest.len();
    for i in 0..n
        invariant
            n == rest@.len(),
            rest@ == orig,
            keys@.len() == i,
            forall|j: int| 0 <= j < i ==> (#[trigger] keys@[j])@ == lower_of(rest@[j].name@),
    {
        let k = lowercase(rest[i].name.as_str());
        keys.push(k);
    }
    let mut out: Vec<FileEntry> = Vec::new();
    while rest.len() > 0
        invariant
            keys@.len() == rest@.len(),
            forall|j: int|
                0 <= j < rest@.len() ==> (#[trigger] keys@[j])@ == lower_of(rest@[j].name@),
            out@.to_multiset().add(rest@.to_multiset()) =~= orig.to_multiset(),
            out@.len() + rest@.len() == orig.len(),
            forall|i: int, j: int| 0 <= i < j < out@.len() ==> entry_le(out@[i], out@[j]),
            forall|i: int, j: int|
                0 <= i < out@.len() && 0 <= j < rest@.len() ==> entry_le(
                    #[trigger] out@[i],
                    #[trigger] rest@[j],
                ),
        decreases rest@.len(),
    {
        // find the least remaining entry
        let mut m: usize = 0;
        let mut j: usize = 1;
        proof {
            lemma_entry_le_total(rest@[0int], rest@[0int]);
        }
        while j < rest.len()
            invariant
                keys@.len() == rest@.len(),
                forall|k: int|
                    0 <= k < rest@.len() ==> (#[trigger] keys@[k])@ == lower_of(rest@[k].name@),
                rest@.len() > 0,
                m < j,
                j <= rest@.len(),
                forall|k: int| 0 <= k < j ==> entry_le(rest@[m as int], #[trigger] rest@[k]),
            decreases rest@.len() - j,
        {
            if !entry_le_exec(&rest[m], &keys[m], &rest[j], &keys[j]) {
                proof {
                    lemma_entry_le_total(rest@[m as int], rest@[j as int]);
                    lemma_entry_le_total(rest@[j as int], rest@[j as int]);
                    assert forall|k: int| 0 <= k < j implies entry_le(
                        rest@[j as int],
                        #[trigger] rest@[k],
                    ) by {
                        lemma_entry_le_trans(rest@[j as int], rest@[m as int], rest@[k]);
                    }
                }
                m = j;
            }
            j += 1;
        }
        let ghost old_out = out@;
        let ghost old_rest = rest@;
        let e = rest.remove(m);
        keys.remove(m);
        out.push(e);
        proof {
            assert(out@ == old_out.push(e));
            assert(rest@ == old_rest.remove(m as int));
            assert(out@.to_multiset() =~= old_out.to_multiset().insert(e));
            assert(rest@.to_multiset() =~= old_rest.to_multiset().remove(e));
            assert(old_rest.to_multiset().count(e) > 0);
            assert(out@.to_multiset().add(rest@.to_multiset()) =~= old_out.to_multiset().add(
                old_rest.to_multiset(),
            ));
            // the extracted entry follows everything already placed and
            // precedes everything left behind
            assert forall|i: int, j2: int|
                0 <= i < out@.len() && 0 <= j2 < rest@.len() implies entry_le(
                #[trigger] out@[i],
                #[trigger] rest@[j2],
            ) by {
                let src = if j2 < m as int {
                    j2
                } else {
                    j2 + 1
                };
                assert(rest@[j2] == old_rest[src]);
                if i < out@.len() - 1 {
                    assert(out@[i] == old_out[i]);
                } else {
                    assert(out@[i] == e);
                    assert(entry_le(old_rest[m as int], old_rest[src]));
                }
            }
            assert forall|i: int, j2: int| 0 <= i < j2 < out@.len() implies entry_le(
                out@[i],
                out@[j2],
            ) by {
                if j2 == out@.len() - 1 {
                    assert(out@[i] == old_out[i]);
                    assert(entry_le(old_out[i], old_rest[m as int]));
                }
            }
        }
    }
    proof {
        assert(rest@.to_multiset() =~= Multiset::<FileEntry>::empty());
        assert(out@.to_multiset() =~= out@.to_multiset().add(rest@.to_multiset()));
    }
    out
}

} // verus!
