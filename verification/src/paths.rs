//! Path strings: trailing-separator trimming, the derived display name
//! of a path, and the parent of a path.

use vstd::prelude::*;

verus! {

/// The view of the filesystem root path, `"/"`.
pub open spec fn root_seq() -> Seq<char> {
    seq!['/']
}

/// `s` with every trailing `'/'` removed.
pub open spec fn trim_slashes(s: Seq<char>) -> Seq<char>
    decreases s.len(),
{
    if s.len() > 0 && s.last() == '/' {
        trim_slashes(s.drop_last())
    } else {
        s
    }
}

/// Index of the last `'/'` in `s`, or `-1` if there is none.
pub open spec fn last_slash_index(s: Seq<char>) -> int
    decreases s.len(),
{
    if s.len() == 0 {
        -1
    } else if s.last() == '/' {
        s.len() - 1
    } else {
        last_slash_index(s.drop_last())
    }
}

/// The parent of a path: everything before its final component.  Where
/// no parent component remains (the root itself, or a bare name), the
/// parent is the root.
pub open spec fn parent_spec(s: Seq<char>) -> Seq<char> {
    let t = trim_slashes(s);
    let k = last_slash_index(t);
    if k <= 0 {
        root_seq()
    } else {
        t.subrange(0, k)
    }
}

/// The derived display name of a path: its final component, with
/// trailing separators ignored.  Empty only for the root itself.
pub open spec fn name_spec(s: Seq<char>) -> Seq<char> {
    let t = trim_slashes(s);
    let k = last_slash_index(t);
    t.subrange(k + 1, t.len() as int)
}

proof fn lemma_last_slash_index_bounds(s: Seq<char>)
    ensures
        -1 <= last_slash_index(s) < s.len(),
    decreases s.len(),
{
    if s.len() > 0 && s.last() != '/' {
        lemma_last_slash_index_bounds(s.drop_last());
    }
}

/// Number of characters of `path` that remain once trailing
/// separators are removed.
fn trimmed_len(path: &str) -> (r: usize)
    ensures
        r <= path@.len(),
        trim_slashes(path@) == path@.subrange(0, r as int),
{
    let n = path.unicode_len();
    proof {
        assert(path@.subrange(0, n as int) =~= path@);
    }
    let mut end = n;
    while end > 0 && path.get_char(end - 1) == '/'
        invariant
            end <= n,
            n == path@.len(),
            trim_slashes(path@) == trim_slashes(path@.subrange(0, end as int)),
        decreases end,
    {
        proof {
            assert(path@.subrange(0, end as int).drop_last() =~= path@.subrange(0, end - 1));
        }
        end = end - 1;
    }
    proof {
        if end == 0 {
            assert(path@.subrange(0, 0) =~= Seq::<char>::empty());
        }
    }
    end
}

/// Position just after the last `'/'` among the first `end` characters
/// of `path`; `0` when no separator occurs there.
fn after_last_slash(path: &str, end: usize) -> (r: usize)
    requires
        end <= path@.len(),
    ensures
        r <= end,
        r - 1 == last_slash_index(path@.subrange(0, end as int)),
{
    let mut j = end;
    while j > 0 && path.get_char(j - 1) != '/'
        invariant
            j <= end <= path@.len(),
            last_slash_index(path@.subrange(0, end as int)) == last_slash_index(
                path@.subrange(0, j as int),
            ),
        decreases j,
    {
        proof {
            assert(path@.subrange(0, j as int).drop_last() =~= path@.subrange(0, j - 1));
        }
        j = j - 1;
    }
    proof {
        if j == 0 {
            assert(path@.subrange(0, 0) =~= Seq::<char>::empty());
        }
    }
    j
}

/// The parent of `path`; the root where `path` is the root or holds no
/// separator at all.
pub fn parent_of(path: &str) -> (r: String)
    ensures
        r@ == parent_spec(path@),
{
    let end = trimmed_len(path);
    let j = after_last_slash(path, end);
    if j <= 1 {
        proof {
            reveal_strlit("/");
            assert("/"@ =~= root_seq());
        }
        String::from_str("/")
    } else {
        let s = path.substring_char(0, j - 1);
        proof {
            assert(trim_slashes(path@).subrange(0, j - 1) =~= path@.subrange(0, j - 1));
        }
        s.to_owned()
    }
}

/// The derived display name of `path`: its final component.
pub fn name_of(path: &str) -> (r: String)
    ensures
        r@ == name_spec(path@),
{
    let end = trimmed_len(path);
    let j = after_last_slash(path, end);
    proof {
        lemma_last_slash_index_bounds(path@.subrange(0, end as int));
    }
    let s = path.substring_char(j, end);
    proof {
        let t = trim_slashes(path@);
        assert(t.subrange(j as int, t.len() as int) =~= path@.subrange(j as int, end as int));
    }
    s.to_owned()
}

/// Going up at the filesystem root stays at the root: the parent of the
/// root is the root itself, so taking the parent twice is the same as
/// taking it once.
pub proof fn lemma_parent_of_root_is_root()
    ensures
        parent_spec(root_seq()) == root_seq(),
        parent_spec(parent_spec(root_seq())) == parent_spec(root_seq()),
{
    let r = root_seq();
    let e = Seq::<char>::empty();
    assert(r.drop_last() =~= e);
    assert(trim_slashes(e) == e);
    assert(trim_slashes(r) == trim_slashes(r.drop_last()));
    assert(last_slash_index(e) == -1);
}

} // verus!
