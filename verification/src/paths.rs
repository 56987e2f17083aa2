//! Path Resolver: computes the relative import path from a transformed file
//! to the configured artifact directory, by pure segment manipulation over
//! the two configured path strings, independent of the host operating
//! system's path conventions and without touching a filesystem.
//!
//! Conventions of the model:
//! - both `/` and `\` are accepted as separators on input; output uses `/`;
//! - a path is absolute exactly when it starts with a separator;
//! - a `.` segment is kept as a literal segment while two paths are compared
//!   (two spellings of the same directory then yield a longer, equivalent
//!   relative path), is never counted as a parent step, and is dropped from
//!   the rendered result.

use vstd::prelude::*;

use crate::strutil::opt_str_view;
use crate::strutil::push_char;

verus! {

/// Path separator characters recognized on input: both slash conventions.
pub open spec fn is_sep(c: char) -> bool {
    c == '/' || c == '\\'
}

/// The one-character segment `"."`, which names the current directory.
pub open spec fn dot_seg() -> Seq<char> {
    seq!['.']
}

/// The two-character segment `".."`, which names the parent directory.
pub open spec fn dotdot_seg() -> Seq<char> {
    seq!['.', '.']
}

/// A path is taken as absolute exactly when it starts with a separator.
pub open spec fn is_absolute(s: Seq<char>) -> bool {
    s.len() > 0 && is_sep(s[0])
}

/// Splitting, one character at a time: `cur` is the run read so far.
pub open spec fn split_acc(s: Seq<char>, cur: Seq<char>) -> Seq<Seq<char>>
    decreases s.len(),
{
    if s.len() == 0 {
        if cur.len() == 0 {
            seq![]
        } else {
            seq![cur]
        }
    } else if is_sep(s[0]) {
        if cur.len() == 0 {
            split_acc(s.skip(1), seq![])
        } else {
            seq![cur] + split_acc(s.skip(1), seq![])
        }
    } else {
        split_acc(s.skip(1), cur.push(s[0]))
    }
}

/// The segments of a path: maximal runs of non-separator characters, in
/// order; empty runs (leading, trailing or repeated separators) contribute
/// nothing.
pub open spec fn path_segments(s: Seq<char>) -> Seq<Seq<char>> {
    split_acc(s, seq![])
}

/// The view of a vector of segment strings.
pub open spec fn segs_view(v: Seq<String>) -> Seq<Seq<char>> {
    crate::strutil::strs_view(v)
}

/// Splits a path string into its segments.
pub fn split_path_segments(s: &str) -> (r: Vec<String>)
    ensures
        segs_view(r@) == path_segments(s@),
{
    let n = s.unicode_len();
    let mut r: Vec<String> = Vec::new();
    let mut cur: String = String::new();
    let mut i: usize = 0;
    proof {
        assert(s@.skip(0) =~= s@);
        assert(cur@ =~= Seq::<char>::empty());
        assert(segs_view(r@) + split_acc(s@, cur@) =~~= split_acc(s@, cur@));
    }
    while i < n
        invariant
            n == s@.len(),
            i <= n,
            path_segments(s@) == segs_view(r@) + split_acc(s@.skip(i as int), cur@),
        decreases n - i,
    {
        let c = s.get_char(i);
        proof {
            assert(s@.skip(i as int).skip(1) =~= s@.skip(i as int + 1));
            assert(s@.skip(i as int)[0] == s@[i as int]);
        }
        if c == '/' || c == '\\' {
            if !cur.as_str().is_empty() {
                let ghost old_r = r@;
                let ghost old_cur = cur@;
                r.push(cur);
                cur = String::new();
                proof {
                    assert(cur@ =~= Seq::<char>::empty());
                    assert(segs_view(r@) =~~= segs_view(old_r) + seq![old_cur]);
                    assert(segs_view(old_r) + (seq![old_cur] + split_acc(s@.skip(i as int + 1), seq![]))
                        =~~= (segs_view(old_r) + seq![old_cur]) + split_acc(s@.skip(i as int + 1), seq![]));
                }
            } else {
                proof {
                    assert(cur@ =~= Seq::<char>::empty());
                }
            }
        } else {
            let ghost old_cur = cur@;
            push_char(&mut cur, c);
            proof {
                assert(cur@ =~= old_cur.push(c));
            }
        }
        i = i + 1;
    }
    proof {
        assert(s@.skip(n as int) =~= Seq::<char>::empty());
    }
    if !cur.as_str().is_empty() {
        let ghost old_r = r@;
        let ghost old_cur = cur@;
        r.push(cur);
        proof {
            assert(segs_view(r@) =~~= segs_view(old_r) + seq![old_cur]);
        }
    } else {
        proof {
            assert(segs_view(r@) + Seq::<Seq<char>>::empty() =~~= segs_view(r@));
        }
    }
    r
}

/// Length of the longest common prefix of two segment sequences.
pub open spec fn common_prefix_len(a: Seq<Seq<char>>, b: Seq<Seq<char>>) -> nat
    decreases a.len(),
{
    if a.len() == 0 || b.len() == 0 || a[0] != b[0] {
        0
    } else {
        1 + common_prefix_len(a.skip(1), b.skip(1))
    }
}

/// The longest common prefix is no longer than either sequence.
proof fn lemma_common_prefix_len_bounds(a: Seq<Seq<char>>, b: Seq<Seq<char>>)
    ensures
        common_prefix_len(a, b) <= a.len(),
        common_prefix_len(a, b) <= b.len(),
    decreases a.len(),
{
    if !(a.len() == 0 || b.len() == 0 || a[0] != b[0]) {
        lemma_common_prefix_len_bounds(a.skip(1), b.skip(1));
    }
}

/// Any index that looks like a longest common prefix length is the one.
proof fn lemma_common_prefix_len_unique(a: Seq<Seq<char>>, b: Seq<Seq<char>>, k: int)
    requires
        0 <= k <= a.len(),
        k <= b.len(),
        forall|i: int| 0 <= i < k ==> a[i] == b[i],
        k < a.len() && k < b.len() ==> a[k] != b[k],
    ensures
        k == common_prefix_len(a, b),
    decreases a.len(),
{
    if k == 0 {
        if a.len() > 0 && b.len() > 0 {
            assert(a[0] != b[0]);
        }
    } else {
        assert(a[0] == b[0]);
        let a1 = a.skip(1);
        let b1 = b.skip(1);
        assert(forall|i: int| 0 <= i < k - 1 ==> a1[i] == b1[i]) by {
            assert(forall|i: int| 0 <= i < k - 1 ==> a1[i] == a[i + 1] && b1[i] == b[i + 1]);
        }
        lemma_common_prefix_len_unique(a1, b1, k - 1);
    }
}

/// Computes the length of the longest common prefix of two segment vectors.
fn common_prefix_len_exec(a: &Vec<String>, b: &Vec<String>) -> (k: usize)
    ensures
        k == common_prefix_len(segs_view(a@), segs_view(b@)),
        k <= a@.len(),
        k <= b@.len(),
{
    let mut k: usize = 0;
    while k < a.len() && k < b.len() && a[k] == b[k]
        invariant
            k <= a.len(),
            k <= b.len(),
            forall|i: int| 0 <= i < k ==> segs_view(a@)[i] == segs_view(b@)[i],
        decreases a@.len() - k,
    {
        k = k + 1;
    }
    proof {
        lemma_common_prefix_len_unique(segs_view(a@), segs_view(b@), k as int);
    }
    k
}

/// Whether the string holds exactly the segment `"."`.
fn is_dot(s: &String) -> (r: bool)
    ensures
        r == (s@ == dot_seg()),
{
    let st = s.as_str();
    if st.unicode_len() == 1 {
        let r = st.get_char(0) == '.';
        proof {
            if r {
                assert(s@ =~= dot_seg());
            }
        }
        r
    } else {
        false
    }
}

/// Whether the string holds exactly the segment `".."`.
fn is_dotdot(s: &String) -> (r: bool)
    ensures
        r == (s@ == dotdot_seg()),
{
    let st = s.as_str();
    if st.unicode_len() == 2 {
        let r = st.get_char(0) == '.' && st.get_char(1) == '.';
        proof {
            if r {
                assert(s@ =~= dotdot_seg());
            }
        }
        r
    } else {
        false
    }
}

/// Whether a parent-directory segment occurs anywhere in the sequence.
pub open spec fn contains_dotdot(s: Seq<Seq<char>>) -> bool {
    exists|i: int| 0 <= i < s.len() && s[i] == dotdot_seg()
}

/// Checks the suffix of `v` starting at `from` for a `".."` segment.
fn contains_dotdot_from(v: &Vec<String>, from: usize) -> (r: bool)
    requires
        from <= v@.len(),
    ensures
        r == contains_dotdot(segs_view(v@).skip(from as int)),
{
    let ghost suffix = segs_view(v@).skip(from as int);
    let mut j: usize = from;
    while j < v.len()
        invariant
            from <= j <= v@.len(),
            suffix == segs_view(v@).skip(from as int),
            forall|i: int| from <= i < j ==> segs_view(v@)[i] != dotdot_seg(),
        decreases v@.len() - j,
    {
        if is_dotdot(&v[j]) {
            proof {
                assert(suffix[j - from as int] == dotdot_seg());
            }
            return true;
        }
        j = j + 1;
    }
    proof {
        assert(forall|i: int| 0 <= i < suffix.len() ==> suffix[i] == segs_view(v@)[i + from as int]);
    }
    false
}

/// The sequence with every `"."` segment removed.
pub open spec fn drop_dots(s: Seq<Seq<char>>) -> Seq<Seq<char>>
    decreases s.len(),
{
    if s.len() == 0 {
        seq![]
    } else if s[0] == dot_seg() {
        drop_dots(s.skip(1))
    } else {
        seq![s[0]] + drop_dots(s.skip(1))
    }
}

proof fn lemma_drop_dots_push(s: Seq<Seq<char>>, x: Seq<char>)
    ensures
        drop_dots(s.push(x)) == if x == dot_seg() {
            drop_dots(s)
        } else {
            drop_dots(s).push(x)
        },
    decreases s.len(),
{
    if s.len() == 0 {
        assert(s.push(x)[0] == x);
        assert(s.push(x).skip(1) =~~= Seq::<Seq<char>>::empty());
        if x != dot_seg() {
            assert(seq![x] + drop_dots(Seq::<Seq<char>>::empty()) =~~= drop_dots(s).push(x));
        }
    } else {
        assert(s.push(x)[0] == s[0]);
        assert(s.push(x).skip(1) =~~= s.skip(1).push(x));
        lemma_drop_dots_push(s.skip(1), x);
        if s[0] != dot_seg() {
            if x != dot_seg() {
                assert(seq![s[0]] + drop_dots(s.skip(1)).push(x) =~~= (seq![s[0]] + drop_dots(
                    s.skip(1),
                )).push(x));
            }
        }
    }
}

/// `n` parent-directory segments in a row.
pub open spec fn parents(n: nat) -> Seq<Seq<char>> {
    Seq::new(n, |i: int| dotdot_seg())
}

/// The segments joined with `/`, the separator required by module import
/// syntax, whatever the host convention.
pub open spec fn join_slash(segs: Seq<Seq<char>>) -> Seq<char>
    decreases segs.len(),
{
    if segs.len() == 0 {
        seq![]
    } else if segs.len() == 1 {
        segs[0]
    } else {
        segs[0] + seq!['/'] + join_slash(segs.skip(1))
    }
}

proof fn lemma_join_slash_push(s: Seq<Seq<char>>, x: Seq<char>)
    ensures
        join_slash(s.push(x)) == if s.len() == 0 {
            x
        } else {
            join_slash(s) + seq!['/'] + x
        },
    decreases s.len(),
{
    if s.len() == 0 {
        assert(s.push(x)[0] == x);
    } else if s.len() == 1 {
        assert(s.push(x)[0] == s[0]);
        assert(s.push(x).skip(1) =~~= seq![x]);
        assert(join_slash(seq![x]) == x);
    } else {
        assert(s.push(x)[0] == s[0]);
        assert(s.push(x).skip(1) =~~= s.skip(1).push(x));
        lemma_join_slash_push(s.skip(1), x);
        assert(s[0] + seq!['/'] + (join_slash(s.skip(1)) + seq!['/'] + x) =~= (s[0] + seq!['/']
            + join_slash(s.skip(1))) + seq!['/'] + x);
    }
}

/// A relative segment list rendered as an import path: joined with `/` and
/// prefixed with `./` unless it already starts with a parent-directory
/// segment.
pub open spec fn rendered_path(rel: Seq<Seq<char>>) -> Seq<char> {
    if rel.len() > 0 && rel[0] == dotdot_seg() {
        join_slash(rel)
    } else {
        seq!['.', '/'] + join_slash(rel)
    }
}

/// No separator character stands inside the segment.
pub open spec fn seg_has_no_sep(seg: Seq<char>) -> bool {
    forall|k: int| 0 <= k < seg.len() ==> !is_sep(#[trigger] seg[k])
}

/// No separator character stands inside any segment of the list.
pub open spec fn segs_have_no_sep(segs: Seq<Seq<char>>) -> bool {
    forall|i: int| 0 <= i < segs.len() ==> seg_has_no_sep(#[trigger] segs[i])
}

proof fn lemma_split_acc_no_sep(s: Seq<char>, cur: Seq<char>)
    requires
        seg_has_no_sep(cur),
    ensures
        segs_have_no_sep(split_acc(s, cur)),
    decreases s.len(),
{
    if s.len() == 0 {
    } else if is_sep(s[0]) {
        assert(seg_has_no_sep(seq![]));
        lemma_split_acc_no_sep(s.skip(1), seq![]);
        if cur.len() > 0 {
            let r = split_acc(s, cur);
            let rest = split_acc(s.skip(1), seq![]);
            assert forall|i: int| 0 <= i < r.len() implies seg_has_no_sep(#[trigger] r[i]) by {
                if i == 0 {
                    assert(r[i] == cur);
                } else {
                    assert(r[i] == rest[i - 1]);
                }
            }
        }
    } else {
        assert(seg_has_no_sep(cur.push(s[0]))) by {
            assert(forall|k: int|
                0 <= k < cur.len() ==> cur.push(s[0])[k] == #[trigger] cur[k]);
            assert(cur.push(s[0])[cur.len() as int] == s[0]);
        }
        lemma_split_acc_no_sep(s.skip(1), cur.push(s[0]));
    }
}

/// Splitting strips every separator: no segment of a split path holds one.
pub proof fn lemma_path_segments_no_sep(s: Seq<char>)
    ensures
        segs_have_no_sep(path_segments(s)),
{
    assert(seg_has_no_sep(seq![]));
    lemma_split_acc_no_sep(s, seq![]);
}

/// Whether the string holds no backslash.
pub open spec fn no_backslash(s: Seq<char>) -> bool {
    forall|k: int| 0 <= k < s.len() ==> #[trigger] s[k] != '\\'
}

proof fn lemma_drop_dots_no_sep(segs: Seq<Seq<char>>)
    requires
        segs_have_no_sep(segs),
    ensures
        segs_have_no_sep(drop_dots(segs)),
    decreases segs.len(),
{
    if segs.len() > 0 {
        assert(segs_have_no_sep(segs.skip(1))) by {
            assert(forall|i: int|
                0 <= i < segs.len() - 1 ==> #[trigger] segs.skip(1)[i] == segs[i + 1]);
        }
        lemma_drop_dots_no_sep(segs.skip(1));
        if segs[0] != dot_seg() {
            let r = drop_dots(segs);
            let rest = drop_dots(segs.skip(1));
            assert forall|i: int| 0 <= i < r.len() implies seg_has_no_sep(#[trigger] r[i]) by {
                if i == 0 {
                    assert(r[i] == segs[0]);
                } else {
                    assert(r[i] == rest[i - 1]);
                }
            }
        }
    }
}

proof fn lemma_join_slash_no_backslash(segs: Seq<Seq<char>>)
    requires
        segs_have_no_sep(segs),
    ensures
        no_backslash(join_slash(segs)),
    decreases segs.len(),
{
    if segs.len() <= 1 {
    } else {
        assert(segs_have_no_sep(segs.skip(1))) by {
            assert(forall|i: int|
                0 <= i < segs.len() - 1 ==> #[trigger] segs.skip(1)[i] == segs[i + 1]);
        }
        lemma_join_slash_no_backslash(segs.skip(1));
        let a = segs[0];
        let rest = join_slash(segs.skip(1));
        let j = join_slash(segs);
        assert(j == a + seq!['/'] + rest);
        assert forall|k: int| 0 <= k < j.len() implies #[trigger] j[k] != '\\' by {
            if k < a.len() {
                assert(j[k] == a[k]);
            } else if k == a.len() {
                assert(j[k] == '/');
            } else {
                assert(j[k] == rest[k - a.len() - 1]);
            }
        }
    }
}

/// The import path is rendered with forward slashes alone, whatever
/// separator convention the configured paths used: every separator of the
/// inputs is consumed by splitting, and the result is joined with `/`.
pub proof fn lemma_forward_slashes_only(
    cwd: Seq<char>,
    filename: Seq<char>,
    artifact: Seq<char>,
    suffix: Seq<char>,
)
    requires
        seg_has_no_sep(suffix),
    ensures
        import_path_spec(cwd, filename, artifact, suffix) matches Some(p) ==> no_backslash(p),
{
    if import_path_spec(cwd, filename, artifact, suffix) is Some {
        let base = file_dir_of(cwd, filename)->0;
        let target = resolved_artifact_dir(cwd, artifact);
        let k = common_prefix_len(target.1, base.1) as int;
        let rel = parents(drop_dots(base.1.skip(k)).len()) + drop_dots(target.1.skip(k));
        lemma_common_prefix_len_bounds(target.1, base.1);
        lemma_path_segments_no_sep(cwd);
        lemma_path_segments_no_sep(filename);
        lemma_path_segments_no_sep(artifact);
        assert(seg_has_no_sep(dotdot_seg())) by {
            assert(dotdot_seg()[0] == '.');
            assert(dotdot_seg()[1] == '.');
        }
        assert(segs_have_no_sep(target.1)) by {
            assert(forall|i: int|
                0 <= i < path_segments(cwd).len() ==> (path_segments(cwd) + path_segments(
                    artifact,
                ))[i] == #[trigger] path_segments(cwd)[i]);
            assert(forall|i: int|
                0 <= i < path_segments(artifact).len() ==> (path_segments(cwd) + path_segments(
                    artifact,
                ))[i + path_segments(cwd).len()] == #[trigger] path_segments(artifact)[i]);
        }
        assert(segs_have_no_sep(base.1)) by {
            let full = joined(cwd, filename).1;
            assert(segs_have_no_sep(full)) by {
                assert(forall|i: int|
                    0 <= i < path_segments(cwd).len() ==> (path_segments(cwd) + path_segments(
                        filename,
                    ))[i] == #[trigger] path_segments(cwd)[i]);
                assert(forall|i: int|
                    0 <= i < path_segments(filename).len() ==> (path_segments(cwd) + path_segments(
                        filename,
                    ))[i + path_segments(cwd).len()] == #[trigger] path_segments(filename)[i]);
            }
            assert(forall|i: int|
                0 <= i < base.1.len() ==> #[trigger] base.1[i] == full[i]);
        }
        assert(segs_have_no_sep(target.1.skip(k))) by {
            assert(forall|i: int|
                0 <= i < target.1.len() - k ==> #[trigger] target.1.skip(k)[i] == target.1[i + k]);
        }
        assert(segs_have_no_sep(base.1.skip(k))) by {
            assert(forall|i: int|
                0 <= i < base.1.len() - k ==> #[trigger] base.1.skip(k)[i] == base.1[i + k]);
        }
        lemma_drop_dots_no_sep(target.1.skip(k));
        lemma_drop_dots_no_sep(base.1.skip(k));
        assert(segs_have_no_sep(rel)) by {
            let ups = parents(drop_dots(base.1.skip(k)).len());
            assert(forall|i: int| 0 <= i < ups.len() ==> #[trigger] ups[i] == dotdot_seg());
            assert(forall|i: int| 0 <= i < ups.len() ==> #[trigger] rel[i] == ups[i]);
            assert(forall|i: int|
                0 <= i < drop_dots(target.1.skip(k)).len() ==> #[trigger] drop_dots(
                    target.1.skip(k),
                )[i] == rel[i + ups.len()]);
        }
        let full_rel = rel.push(suffix);
        assert(segs_have_no_sep(full_rel)) by {
            assert(forall|i: int| 0 <= i < rel.len() ==> full_rel[i] == #[trigger] rel[i]);
            assert(full_rel[rel.len() as int] == suffix);
        }
        lemma_join_slash_no_backslash(full_rel);
        let p = rendered_path(full_rel);
        if full_rel.len() > 0 && full_rel[0] == dotdot_seg() {
        } else {
            let j = join_slash(full_rel);
            assert forall|c: int| 0 <= c < p.len() implies #[trigger] p[c] != '\\' by {
                if c == 0 {
                    assert(p[c] == '.');
                } else if c == 1 {
                    assert(p[c] == '/');
                } else {
                    assert(p[c] == j[c - 2]);
                }
            }
        }
    }
}

/// Join as `PathBuf::push` does: an absolute second path replaces the first,
/// a relative one is appended segment by segment.
pub open spec fn joined(base: Seq<char>, tail: Seq<char>) -> (bool, Seq<Seq<char>>) {
    if is_absolute(tail) {
        (true, path_segments(tail))
    } else {
        (is_absolute(base), path_segments(base) + path_segments(tail))
    }
}

/// Absoluteness and segments of the directory holding the transformed file:
/// the filename joined onto the working directory, less its last segment.
/// `None` when no segment is left to stand above.
pub open spec fn file_dir_of(cwd: Seq<char>, filename: Seq<char>) -> Option<(bool, Seq<Seq<char>>)> {
    let full = joined(cwd, filename);
    if full.1.len() == 0 {
        None
    } else {
        Some((full.0, full.1.drop_last()))
    }
}

/// The artifact directory: used as given when absolute, joined onto the
/// working directory otherwise.
pub open spec fn resolved_artifact_dir(cwd: Seq<char>, artifact: Seq<char>) -> (bool, Seq<
    Seq<char>,
>) {
    joined(cwd, artifact)
}

/// The relative walk from `base` to `target`: one `".."` per real (non-`"."`)
/// segment of `base` past the longest common prefix, then what remains of
/// `target`, its `"."` segments dropped. `None` when a `".."` among the
/// remaining base segments makes the walk impossible to determine.
pub open spec fn relative_segments(target: Seq<Seq<char>>, base: Seq<Seq<char>>) -> Option<
    Seq<Seq<char>>,
> {
    let k = common_prefix_len(target, base) as int;
    if contains_dotdot(base.skip(k)) {
        None
    } else {
        Some(parents(drop_dots(base.skip(k)).len()) + drop_dots(target.skip(k)))
    }
}

/// The import path from the directory of `filename` to the artifact
/// directory, with `suffix` appended as one further segment. `None` exactly
/// when the two directories cannot be related: the file path has no parent
/// directory, one of the two is absolute and the other is not, or a
/// parent-directory segment remains under the file's directory.
pub open spec fn import_path_spec(
    cwd: Seq<char>,
    filename: Seq<char>,
    artifact: Seq<char>,
    suffix: Seq<char>,
) -> Option<Seq<char>> {
    match file_dir_of(cwd, filename) {
        None => None,
        Some(base) => {
            let target = resolved_artifact_dir(cwd, artifact);
            if target.0 != base.0 {
                None
            } else {
                match relative_segments(target.1, base.1) {
                    None => None,
                    Some(rel) => Some(rendered_path(rel.push(suffix))),
                }
            }
        },
    }
}

/// Whether the path string starts with a separator.
fn starts_with_sep(s: &str) -> (r: bool)
    ensures
        r == is_absolute(s@),
{
    if s.is_empty() {
        false
    } else {
        let c = s.get_char(0);
        c == '/' || c == '\\'
    }
}

/// A fresh `".."` segment.
fn dotdot_string() -> (s: String)
    ensures
        s@ == dotdot_seg(),
{
    let s = String::from_str("..");
    proof {
        reveal_strlit("..");
        assert(s@ =~= dotdot_seg());
    }
    s
}

/// Joins `tail` onto `base` as `PathBuf::push` would, returning the
/// absoluteness and the segments of the result.
fn joined_exec(base: &str, tail: &str) -> (r: (bool, Vec<String>))
    ensures
        r.0 == joined(base@, tail@).0,
        segs_view(r.1@) == joined(base@, tail@).1,
{
    if starts_with_sep(tail) {
        (true, split_path_segments(tail))
    } else {
        let abs = starts_with_sep(base);
        let mut v = split_path_segments(base);
        let mut t = split_path_segments(tail);
        let ghost v0 = v@;
        let ghost t0 = t@;
        v.append(&mut t);
        proof {
            assert(segs_view(v@) =~~= segs_view(v0) + segs_view(t0));
        }
        (abs, v)
    }
}

/// Renders a relative segment list as an import path string.
fn render_path(rel: &Vec<String>) -> (r: String)
    ensures
        r@ == rendered_path(segs_view(rel@)),
{
    let ghost rv = segs_view(rel@);
    let mut out = String::new();
    if rel.is_empty() || !is_dotdot(&rel[0]) {
        push_char(&mut out, '.');
        push_char(&mut out, '/');
    }
    let ghost prefix = out@;
    let mut j: usize = 0;
    while j < rel.len()
        invariant
            j <= rel@.len(),
            rv == segs_view(rel@),
            prefix == if rv.len() > 0 && rv[0] == dotdot_seg() {
                Seq::<char>::empty()
            } else {
                seq!['.', '/']
            },
            out@ == prefix + join_slash(rv.take(j as int)),
        decreases rel@.len() - j,
    {
        if j > 0 {
            push_char(&mut out, '/');
        }
        out.append(rel[j].as_str());
        proof {
            assert(rv.take(j as int + 1) =~~= rv.take(j as int).push(rv[j as int]));
            lemma_join_slash_push(rv.take(j as int), rv[j as int]);
            if j > 0 {
                assert((prefix + join_slash(rv.take(j as int))) + seq!['/'] + rv[j as int] =~= prefix
                    + (join_slash(rv.take(j as int)) + seq!['/'] + rv[j as int]));
            } else {
                assert(prefix + Seq::<char>::empty() + rv[0] =~= prefix + rv[0]);
            }
        }
        j = j + 1;
    }
    proof {
        assert(rv.take(rv.len() as int) =~~= rv);
        if !(rv.len() > 0 && rv[0] == dotdot_seg()) {
            assert(out@ =~= rendered_path(rv));
        }
    }
    out
}

/// Computes the import path from the directory of `filename` (joined onto
/// `cwd`) to the artifact directory (joined onto `cwd` unless absolute),
/// appending `suffix` as a final segment; the result uses `/` separators and
/// starts with `./` unless it starts with `..`. Returns `None` exactly when
/// the two directories cannot be related.
pub fn resolve_import_path(cwd: &str, filename: &str, artifact_directory: &str, suffix: &str) -> (r:
    Option<String>)
    ensures
        opt_str_view(r) == import_path_spec(cwd@, filename@, artifact_directory@, suffix@),
{
    let (file_abs, mut base) = joined_exec(cwd, filename);
    if base.is_empty() {
        return None;
    }
    let ghost full = segs_view(base@);
    let _ = base.pop();
    proof {
        assert(segs_view(base@) =~~= full.drop_last());
    }
    let (target_abs, target) = joined_exec(cwd, artifact_directory);
    if target_abs != file_abs {
        return None;
    }
    let k = common_prefix_len_exec(&target, &base);
    if contains_dotdot_from(&base, k) {
        return None;
    }
    let ghost tv = segs_view(target@);
    let ghost bv = segs_view(base@);
    let ghost base_rem = bv.skip(k as int);
    let ghost target_rem = tv.skip(k as int);

    // one ".." per real segment of the base remainder
    let mut rel: Vec<String> = Vec::new();
    let mut j: usize = k;
    proof {
        assert(base_rem.take(0) =~~= Seq::<Seq<char>>::empty());
        assert(segs_view(rel@) =~~= parents(drop_dots(base_rem.take(0)).len()));
    }
    while j < base.len()
        invariant
            k <= j <= base@.len(),
            bv == segs_view(base@),
            base_rem == bv.skip(k as int),
            segs_view(rel@) == parents(drop_dots(base_rem.take(j - k as int)).len()),
        decreases base@.len() - j,
    {
        let ghost step = base_rem[j - k as int];
        proof {
            assert(step == bv[j as int]);
            assert(base_rem.take(j + 1 - k as int) =~~= base_rem.take(j - k as int).push(step));
            lemma_drop_dots_push(base_rem.take(j - k as int), step);
        }
        if !is_dot(&base[j]) {
            let ghost rel0 = rel@;
            rel.push(dotdot_string());
            proof {
                assert(segs_view(rel@) =~~= segs_view(rel0).push(dotdot_seg()));
                assert(segs_view(rel@) =~~= parents(
                    drop_dots(base_rem.take(j + 1 - k as int)).len(),
                ));
            }
        }
        j = j + 1;
    }
    proof {
        assert(base_rem.take(base@.len() - k as int) =~~= base_rem);
    }
    let ghost n_up = drop_dots(base_rem).len();

    // then what remains of the target, its "." segments dropped
    let mut j: usize = k;
    proof {
        assert(target_rem.take(0) =~~= Seq::<Seq<char>>::empty());
        assert(segs_view(rel@) + Seq::<Seq<char>>::empty() =~~= segs_view(rel@));
    }
    while j < target.len()
        invariant
            k <= j <= target@.len(),
            tv == segs_view(target@),
            target_rem == tv.skip(k as int),
            segs_view(rel@) == parents(n_up) + drop_dots(target_rem.take(j - k as int)),
        decreases target@.len() - j,
    {
        let ghost step = target_rem[j - k as int];
        proof {
            assert(step == tv[j as int]);
            assert(target_rem.take(j + 1 - k as int) =~~= target_rem.take(j - k as int).push(step));
            lemma_drop_dots_push(target_rem.take(j - k as int), step);
        }
        if !is_dot(&target[j]) {
            let ghost rel0 = rel@;
            rel.push(target[j].clone());
            proof {
                assert(segs_view(rel@) =~~= segs_view(rel0).push(step));
                assert(parents(n_up) + drop_dots(target_rem.take(j - k as int)).push(step) =~~= (
                parents(n_up) + drop_dots(target_rem.take(j - k as int))).push(step));
            }
        }
        j = j + 1;
    }
    proof {
        assert(target_rem.take(target@.len() - k as int) =~~= target_rem);
    }

    // the fixed suffix segment, then the rendered path
    let ghost rel_before_suffix = segs_view(rel@);
    rel.push(String::from_str(suffix));
    proof {
        assert(segs_view(rel@) =~~= rel_before_suffix.push(suffix@));
    }
    let out = render_path(&rel);
    Some(out)
}

} // verus!
