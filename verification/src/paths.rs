//! Traversal-safe path resolution.
//!
//! A request path is joined under the server root and normalized lexically:
//! empty and `.` segments are dropped, and a `..` segment removes the segment
//! before it (or nothing, at the top of the filesystem). Resolution succeeds
//! only when the normalized path still lies under the root; a request whose
//! `..` segments climb out of the root fails with `PathTraversal`. When the
//! resolved path names an existing directory, the caller appends the default
//! document `index.gmi` through [`apply_directory_index`].

use vstd::prelude::*;

use crate::GeminiError;
use crate::text::str_eq;

verus! {

/// The index of the first `/` in `s`, or `s.len()` when there is none.
pub open spec fn first_slash(s: Seq<char>) -> nat
    decreases s.len(),
{
    if s.len() == 0 {
        0
    } else if s[0] == '/' {
        0
    } else {
        1 + first_slash(s.drop_first())
    }
}

/// The segments of `s` between `/` separators. A trailing separator adds no
/// segment; consecutive separators yield an empty segment between them.
pub open spec fn split_path(s: Seq<char>) -> Seq<Seq<char>>
    decreases s.len(),
{
    if s.len() == 0 {
        Seq::empty()
    } else {
        let i = first_slash(s) as int;
        if i >= s.len() {
            seq![s]
        } else {
            seq![s.take(i)] + split_path(s.skip(i + 1))
        }
    }
}

/// Lexical normalization over a segment list, left to right: empty and `.`
/// segments disappear, and `..` removes the preceding kept segment, or
/// nothing when none is left (the parent of the filesystem root is the root).
pub open spec fn clean_segments(segs: Seq<Seq<char>>) -> Seq<Seq<char>>
    decreases segs.len(),
{
    if segs.len() == 0 {
        Seq::empty()
    } else {
        let st = clean_segments(segs.drop_last());
        let s = segs.last();
        if s.len() == 0 || s == "."@ {
            st
        } else if s == ".."@ {
            if st.len() == 0 {
                st
            } else {
                st.drop_last()
            }
        } else {
            st.push(s)
        }
    }
}

/// The segments concatenated, each preceded by a `/`.
pub open spec fn cat_segments(segs: Seq<Seq<char>>) -> Seq<char>
    decreases segs.len(),
{
    if segs.len() == 0 {
        Seq::empty()
    } else {
        cat_segments(segs.drop_last()) + seq!['/'] + segs.last()
    }
}

/// An absolute path made of the given segments: `/` alone when there are
/// none.
pub open spec fn join_rooted(segs: Seq<Seq<char>>) -> Seq<char> {
    if segs.len() == 0 {
        seq!['/']
    } else {
        cat_segments(segs)
    }
}

/// A path segment that names a real component: non-empty and neither `.` nor
/// `..`.
pub open spec fn plain_segment(s: Seq<char>) -> bool {
    s.len() > 0 && s != "."@ && s != ".."@
}

/// The root's segments: everything past its leading `/`.
pub open spec fn root_segments(root: Seq<char>) -> Seq<Seq<char>> {
    split_path(root.skip(1))
}

/// A server root fit for resolution: absolute, already normalized (no empty,
/// `.` or `..` segments). A trailing separator is harmless.
pub open spec fn is_valid_root(root: Seq<char>) -> bool {
    &&& root.len() >= 1
    &&& root[0] == '/'
    &&& forall|k: int|
        0 <= k < root_segments(root).len() ==> plain_segment(#[trigger] root_segments(root)[k])
}

/// Whether `pre` is an initial run of `all`.
pub open spec fn is_segment_prefix(pre: Seq<Seq<char>>, all: Seq<Seq<char>>) -> bool {
    pre.len() <= all.len() && forall|k: int| 0 <= k < pre.len() ==> pre[k] == #[trigger] all[k]
}

/// The resolution outcome: the request's segments are placed under the
/// root's and normalized together; the result stands only if the root's
/// segments survived in front, else the request escaped the root.
pub open spec fn resolved_path(root: Seq<char>, req: Seq<char>) -> Option<Seq<char>> {
    let all = clean_segments(root_segments(root) + split_path(req));
    if is_segment_prefix(root_segments(root), all) {
        Some(join_rooted(all))
    } else {
        None
    }
}

proof fn lemma_first_slash_at(s: Seq<char>, m: int)
    requires
        0 <= m <= s.len(),
        forall|j: int| 0 <= j < m ==> s[j] != '/',
        m < s.len() ==> s[m] == '/',
    ensures
        first_slash(s) == m,
    decreases m,
{
    if s.len() == 0 {
    } else if m == 0 {
    } else {
        assert(s[0] != '/');
        lemma_first_slash_at(s.drop_first(), m - 1);
    }
}

/// How `split_path` unfolds at the first separator, or with none in sight.
proof fn lemma_split_at_slash(s: Seq<char>, m: int)
    requires
        0 <= m <= s.len(),
        forall|j: int| 0 <= j < m ==> s[j] != '/',
        m < s.len() ==> s[m] == '/',
    ensures
        m < s.len() ==> split_path(s) == seq![s.take(m)] + split_path(s.skip(m + 1)),
        m == s.len() && s.len() > 0 ==> split_path(s) == seq![s],
        s.len() == 0 ==> split_path(s) == Seq::<Seq<char>>::empty(),
{
    lemma_first_slash_at(s, m);
}

/// The segments of `s`, in order, as owned strings.
fn split_exec(s: &str) -> (r: Vec<String>)
    ensures
        r.deep_view() == split_path(s@),
{
    let n = s.unicode_len();
    let mut segs: Vec<String> = Vec::new();
    let mut start: usize = 0;
    let mut i: usize = 0;
    proof {
        assert(s@.skip(0) =~= s@);
        assert(segs.deep_view() + split_path(s@) =~= split_path(s@));
    }
    while i < n
        invariant
            n == s@.len(),
            0 <= start <= i <= n,
            forall|j: int| start <= j < i ==> s@[j] != '/',
            split_path(s@) == segs.deep_view() + split_path(s@.skip(start as int)),
        decreases n - i,
    {
        if s.get_char(i) == '/' {
            let seg = s.substring_char(start, i).to_owned();
            let ghost old_segs = segs.deep_view();
            segs.push(seg);
            proof {
                let tail = s@.skip(start as int);
                assert(forall|j: int|
                    0 <= j < i - start ==> tail[j] == s@[j + start] && s@[j + start] != '/');
                lemma_split_at_slash(tail, i - start);
                assert(tail.take(i - start) =~= s@.subrange(start as int, i as int));
                assert(tail.skip(i - start + 1) =~= s@.skip(i + 1));
                assert(segs.deep_view() =~= old_segs.push(s@.subrange(start as int, i as int)));
                assert(segs.deep_view() + split_path(s@.skip(i + 1)) =~= old_segs + (seq![
                    tail.take(i - start),
                ] + split_path(tail.skip(i - start + 1))));
            }
            start = i + 1;
        }
        i += 1;
    }
    let ghost tail = s@.skip(start as int);
    proof {
        assert(forall|j: int| 0 <= j < n - start ==> tail[j] == s@[j + start] && s@[j + start] != '/');
        lemma_split_at_slash(tail, n - start);
    }
    if start < n {
        let seg = s.substring_char(start, n).to_owned();
        let ghost old_segs = segs.deep_view();
        segs.push(seg);
        proof {
            assert(tail =~= s@.subrange(start as int, n as int));
            assert(segs.deep_view() =~= old_segs.push(tail));
            assert(segs.deep_view() =~= old_segs + seq![tail]);
        }
    } else {
        proof {
            assert(tail.len() == 0);
            assert(segs.deep_view() + split_path(tail) =~= segs.deep_view());
        }
    }
    segs
}

/// Normalizes a segment list with a stack, as [`clean_segments`] states.
fn clean_exec(segs: &Vec<String>) -> (r: Vec<String>)
    ensures
        r.deep_view() == clean_segments(segs.deep_view()),
{
    let n = segs.len();
    let mut stack: Vec<String> = Vec::new();
    let mut i: usize = 0;
    while i < n
        invariant
            n == segs.len(),
            0 <= i <= n,
            stack.deep_view() == clean_segments(segs.deep_view().take(i as int)),
        decreases n - i,
    {
        let ghost pre = segs.deep_view().take(i as int);
        let ghost cur = segs.deep_view().take(i + 1);
        proof {
            assert(cur.drop_last() =~= pre);
            assert(cur.last() == segs.deep_view()[i as int]);
        }
        let s = &segs[i];
        if s.as_str().unicode_len() == 0 || str_eq(s.as_str(), ".") {
            proof {
                reveal_strlit(".");
            }
        } else if str_eq(s.as_str(), "..") {
            proof {
                reveal_strlit(".");
                reveal_strlit("..");
            }
            let ghost old_stack = stack.deep_view();
            let popped = stack.pop();
            proof {
                if old_stack.len() > 0 {
                    assert(stack.deep_view() =~= old_stack.drop_last());
                } else {
                    assert(stack.deep_view() =~= old_stack);
                }
            }
        } else {
            proof {
                reveal_strlit(".");
                reveal_strlit("..");
            }
            let ghost old_stack = stack.deep_view();
            stack.push(s.clone());
            proof {
                assert(stack.deep_view() =~= old_stack.push(segs.deep_view()[i as int]));
            }
        }
        i += 1;
    }
    proof {
        assert(segs.deep_view().take(n as int) =~= segs.deep_view());
    }
    stack
}

/// Whether the strings in `pre` open the list `all`, element for element.
fn is_prefix_exec(pre: &Vec<String>, all: &Vec<String>) -> (r: bool)
    ensures
        r == is_segment_prefix(pre.deep_view(), all.deep_view()),
{
    let n = pre.len();
    if all.len() < n {
        return false;
    }
    let mut i: usize = 0;
    while i < n
        invariant
            n == pre.len() <= all.len(),
            0 <= i <= n,
            forall|k: int| 0 <= k < i ==> pre.deep_view()[k] == all.deep_view()[k],
        decreases n - i,
    {
        if !str_eq(pre[i].as_str(), all[i].as_str()) {
            proof {
                assert(pre.deep_view()[i as int] != all.deep_view()[i as int]);
            }
            return false;
        }
        proof {
            assert(pre.deep_view()[i as int] == all.deep_view()[i as int]);
        }
        i += 1;
    }
    true
}

/// Every joined path is absolute: it opens with a `/`.
proof fn lemma_join_rooted_absolute(segs: Seq<Seq<char>>)
    ensures
        join_rooted(segs).len() > 0,
        join_rooted(segs)[0] == '/',
    decreases segs.len(),
{
    if segs.len() == 0 {
    } else if segs.len() == 1 {
        assert(cat_segments(segs.drop_last()) == Seq::<char>::empty());
    } else {
        lemma_join_rooted_absolute(segs.drop_last());
    }
}

/// The absolute path the segments name, built as [`join_rooted`] states.
fn join_exec(segs: &Vec<String>) -> (r: String)
    ensures
        r@ == join_rooted(segs.deep_view()),
{
    let n = segs.len();
    if n == 0 {
        let r = String::from_str("/");
        proof {
            reveal_strlit("/");
            assert(r@ =~= seq!['/']);
        }
        return r;
    }
    let mut out = String::new();
    let mut i: usize = 0;
    while i < n
        invariant
            n == segs.len(),
            0 <= i <= n,
            out@ == cat_segments(segs.deep_view().take(i as int)),
        decreases n - i,
    {
        let ghost cur = segs.deep_view().take(i + 1);
        proof {
            assert(cur.drop_last() =~= segs.deep_view().take(i as int));
            assert(cur.last() == segs.deep_view()[i as int]);
        }
        out.append("/");
        out.append(segs[i].as_str());
        proof {
            reveal_strlit("/");
            assert("/"@ =~= seq!['/']);
        }
        i += 1;
    }
    proof {
        assert(segs.deep_view().take(n as int) =~= segs.deep_view());
    }
    out
}

proof fn lemma_clean_skips(a: Seq<Seq<char>>, e: Seq<char>, b: Seq<Seq<char>>)
    requires
        e.len() == 0 || e == "."@,
    ensures
        clean_segments(a + seq![e] + b) == clean_segments(a + b),
    decreases b.len(),
{
    if b.len() == 0 {
        assert((a + seq![e] + b) =~= (a + seq![e]));
        assert((a + b) =~= a);
        assert((a + seq![e]).drop_last() =~= a);
        assert((a + seq![e]).last() == e);
    } else {
        let b0 = b.drop_last();
        assert((a + seq![e] + b).drop_last() =~= a + seq![e] + b0);
        assert((a + b).drop_last() =~= a + b0);
        assert((a + seq![e] + b).last() == b.last());
        assert((a + b).last() == b.last());
        lemma_clean_skips(a, e, b0);
    }
}

/// A leading `/` on the request path never changes the resolution outcome:
/// acceptance and traversal rejection are independent of how many separators
/// open the request, since each one only adds an empty segment that
/// normalization drops.
pub proof fn lemma_leading_slash_irrelevant(root: Seq<char>, req: Seq<char>)
    ensures
        resolved_path(root, seq!['/'] + req) == resolved_path(root, req),
{
    let s = seq!['/'] + req;
    assert(s[0] == '/');
    assert(first_slash(s) == 0);
    assert(s.take(0) =~= Seq::<char>::empty());
    assert(s.skip(1) =~= req);
    assert(split_path(s) == seq![Seq::<char>::empty()] + split_path(req));
    lemma_clean_skips(root_segments(root), Seq::empty(), split_path(req));
    assert(root_segments(root) + (seq![Seq::<char>::empty()] + split_path(req)) =~= root_segments(
        root,
    ) + seq![Seq::<char>::empty()] + split_path(req));
}

/// Whether a configured server root is fit for resolution, as
/// [`is_valid_root`] states; checked once at startup.
pub fn check_valid_root(root: &str) -> (r: bool)
    ensures
        r == is_valid_root(root@),
{
    let n = root.unicode_len();
    if n == 0 {
        return false;
    }
    if root.get_char(0) != '/' {
        return false;
    }
    let tail = root.substring_char(1, n);
    proof {
        assert(tail@ =~= root@.skip(1));
    }
    let segs = split_exec(tail);
    let m = segs.len();
    let mut i: usize = 0;
    while i < m
        invariant
            m == segs.deep_view().len(),
            0 <= i <= m,
            segs.deep_view() == root_segments(root@),
            forall|k: int| 0 <= k < i ==> plain_segment(#[trigger] segs.deep_view()[k]),
        decreases m - i,
    {
        let s = segs[i].as_str();
        proof {
            reveal_strlit(".");
            reveal_strlit("..");
        }
        if s.unicode_len() == 0 || str_eq(s, ".") || str_eq(s, "..") {
            proof {
                assert(root_segments(root@)[i as int] == segs.deep_view()[i as int]);
                assert(!plain_segment(root_segments(root@)[i as int]));
            }
            return false;
        }
        i += 1;
    }
    true
}

/// Joins the request path under the root and normalizes it. Returns the
/// normalized absolute path, or `PathTraversal` exactly when the `..`
/// segments of the request climbed out of the root.
pub fn resolve_path(root: &str, input: &str) -> (r: Result<String, GeminiError>)
    requires
        is_valid_root(root@),
    ensures
        match r {
            Ok(p) => resolved_path(root@, input@) == Some(p@) && p@.len() > 0 && p@[0] == '/',
            Err(e) => e == GeminiError::PathTraversal && resolved_path(root@, input@) is None,
        },
{
    let root_len = root.unicode_len();
    let root_tail = root.substring_char(1, root_len);
    proof {
        assert(root_tail@ =~= root@.skip(1));
    }
    let root_segs = split_exec(root_tail);
    let req_segs = split_exec(input);

    let mut combined: Vec<String> = Vec::new();
    let mut i: usize = 0;
    while i < root_segs.len()
        invariant
            0 <= i <= root_segs.len(),
            combined.deep_view() == root_segs.deep_view().take(i as int),
        decreases root_segs.len() - i,
    {
        let ghost old_combined = combined.deep_view();
        combined.push(root_segs[i].clone());
        proof {
            assert(combined.deep_view() =~= old_combined.push(root_segs.deep_view()[i as int]));
            assert(combined.deep_view() =~= root_segs.deep_view().take(i + 1));
        }
        i += 1;
    }
    let mut j: usize = 0;
    while j < req_segs.len()
        invariant
            0 <= j <= req_segs.len(),
            combined.deep_view() == root_segs.deep_view() + req_segs.deep_view().take(j as int),
        decreases req_segs.len() - j,
    {
        let ghost old_combined = combined.deep_view();
        combined.push(req_segs[j].clone());
        proof {
            assert(combined.deep_view() =~= old_combined.push(req_segs.deep_view()[j as int]));
            assert(combined.deep_view() =~= root_segs.deep_view() + req_segs.deep_view().take(
                j + 1,
            ));
        }
        j += 1;
    }
    proof {
        assert(root_segs.deep_view().take(root_segs.deep_view().len() as int) =~= root_segs.deep_view());
        assert(req_segs.deep_view().take(req_segs.deep_view().len() as int) =~= req_segs.deep_view());
    }

    let cleaned = clean_exec(&combined);
    if is_prefix_exec(&root_segs, &cleaned) {
        proof {
            lemma_join_rooted_absolute(cleaned.deep_view());
        }
        Ok(join_exec(&cleaned))
    } else {
        Err(GeminiError::PathTraversal)
    }
}

/// Appends the default document name when the resolved path names a
/// directory: `index.gmi` is added behind a separator, or directly when the
/// path is the filesystem root itself.
pub fn apply_directory_index(path: String, is_dir: bool) -> (r: String)
    requires
        path@.len() > 0,
    ensures
        r@ == if is_dir {
            if path@.last() == '/' {
                path@ + "index.gmi"@
            } else {
                path@ + "/index.gmi"@
            }
        } else {
            path@
        },
{
    if !is_dir {
        return path;
    }
    let n = path.as_str().unicode_len();
    let last = path.as_str().get_char(n - 1);
    let mut out = path;
    if last == '/' {
        out.append("index.gmi");
    } else {
        out.append("/index.gmi");
    }
    out
}

} // verus!
