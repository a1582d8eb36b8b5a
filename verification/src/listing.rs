//! The directory lister: which raw enumeration rows a listing keeps,
//! and the order it shows them in — directories before files, names
//! ascending case-sensitively within each group.

use vstd::prelude::*;
use crate::paths::name_of;
use crate::paths::name_spec;

verus! {

/// One row of a directory listing: an absolute path, the display name
/// derived from it, and whether the path names a directory.
pub struct Entry {
    pub path: String,
    pub name: String,
    pub is_dir: bool,
}

/// The mathematical value of an [`Entry`].
pub ghost struct EntryV {
    pub path: Seq<char>,
    pub name: Seq<char>,
    pub is_dir: bool,
}

impl View for Entry {
    type V = EntryV;

    open spec fn view(&self) -> EntryV {
        EntryV { path: self.path@, name: self.name@, is_dir: self.is_dir }
    }
}

/// The views of a sequence of entries.
pub open spec fn views(s: Seq<Entry>) -> Seq<EntryV> {
    s.map_values(|e: Entry| e@)
}

/// A well-formed entry carries the display name derived from its path,
/// and that name is non-empty.
pub open spec fn entry_wf(e: EntryV) -> bool {
    e.name == name_spec(e.path) && e.name.len() > 0
}

/// A name whose first character is the hidden-file marker.
pub open spec fn is_hidden(name: Seq<char>) -> bool {
    name.len() > 0 && name[0] == '.'
}

/// The pseudo-entries `.` and `..`.
pub open spec fn is_pseudo(name: Seq<char>) -> bool {
    name == seq!['.'] || name == seq!['.', '.']
}

/// Whether a listing keeps an entry of this derived name: the name is
/// non-empty, never a pseudo-entry, and a hidden name stays only when
/// `show_hidden` is set.
pub open spec fn keeps(name: Seq<char>, show_hidden: bool) -> bool {
    &&& name.len() > 0
    &&& !is_pseudo(name)
    &&& show_hidden || !is_hidden(name)
}

/// Case-sensitive lexicographic order on names, by code point.
pub open spec fn lex_le(a: Seq<char>, b: Seq<char>) -> bool
    decreases a.len(),
{
    if a.len() == 0 {
        true
    } else if b.len() == 0 {
        false
    } else if a[0] == b[0] {
        lex_le(a.drop_first(), b.drop_first())
    } else {
        (a[0] as int) < (b[0] as int)
    }
}

/// Strict lexicographic order.
pub open spec fn lex_lt(a: Seq<char>, b: Seq<char>) -> bool {
    lex_le(a, b) && a != b
}

/// Listing order: every directory before every non-directory, and
/// within each group names ascending lexicographically.
pub open spec fn entry_le(a: EntryV, b: EntryV) -> bool {
    if a.is_dir == b.is_dir {
        lex_le(a.name, b.name)
    } else {
        a.is_dir
    }
}

/// An ordered listing.
pub open spec fn ordered(s: Seq<EntryV>) -> bool {
    forall|i: int, j: int| 0 <= i < j < s.len() ==> entry_le(#[trigger] s[i], #[trigger] s[j])
}

proof fn lemma_lex_le_total(a: Seq<char>, b: Seq<char>)
    ensures
        lex_le(a, b) || lex_le(b, a),
    decreases a.len(),
{
    if a.len() == 0 {
    } else if b.len() == 0 {
    } else if a[0] == b[0] {
        lemma_lex_le_total(a.drop_first(), b.drop_first());
    } else {
        assert((a[0] as int) != (b[0] as int));
    }
}

proof fn lemma_lex_le_trans(a: Seq<char>, b: Seq<char>, c: Seq<char>)
    requires
        lex_le(a, b),
        lex_le(b, c),
    ensures
        lex_le(a, c),
    decreases a.len(),
{
    if a.len() > 0 && b.len() > 0 && c.len() > 0 {
        if a[0] == b[0] && b[0] == c[0] {
            lemma_lex_le_trans(a.drop_first(), b.drop_first(), c.drop_first());
        }
    }
}

proof fn lemma_entry_le_total(a: EntryV, b: EntryV)
    ensures
        entry_le(a, b) || entry_le(b, a),
{
    lemma_lex_le_total(a.name, b.name);
}

proof fn lemma_entry_le_trans(a: EntryV, b: EntryV, c: EntryV)
    requires
        entry_le(a, b),
        entry_le(b, c),
    ensures
        entry_le(a, c),
{
    if a.is_dir == b.is_dir && b.is_dir == c.is_dir {
        lemma_lex_le_trans(a.name, b.name, c.name);
    }
}

/// An ordered listing is partitioned: every directory stands before
/// every non-directory, and where the derived names are pairwise
/// distinct each partition ascends strictly by name.
pub proof fn lemma_listing_partitioned(s: Seq<EntryV>)
    requires
        ordered(s),
    ensures
        forall|i: int, j: int| 0 <= i < j < s.len() && (#[trigger] s[j]).is_dir
            ==> (#[trigger] s[i]).is_dir,
        (forall|i: int, j: int| 0 <= i < j < s.len() ==> (#[trigger] s[i]).name != (
        #[trigger] s[j]).name) ==> forall|i: int, j: int|
            0 <= i < j < s.len() && (#[trigger] s[i]).is_dir == (#[trigger] s[j]).is_dir
                ==> lex_lt(s[i].name, s[j].name),
{
    assert forall|i: int, j: int| 0 <= i < j < s.len() && (#[trigger] s[j]).is_dir implies (
    #[trigger] s[i]).is_dir by {
        assert(entry_le(s[i], s[j]));
    }
    if forall|i: int, j: int| 0 <= i < j < s.len() ==> (#[trigger] s[i]).name != (
    #[trigger] s[j]).name {
        assert forall|i: int, j: int|
            0 <= i < j < s.len() && (#[trigger] s[i]).is_dir == (
            #[trigger] s[j]).is_dir implies lex_lt(s[i].name, s[j].name) by {
            assert(entry_le(s[i], s[j]));
            assert(s[i].name != s[j].name);
        }
    }
}

/// The entry a raw enumeration row stands for: the path as handed in,
/// the display name derived from it, and the directory flag.
pub open spec fn entry_of(p: (Seq<char>, bool)) -> EntryV {
    EntryV { path: p.0, name: name_spec(p.0), is_dir: p.1 }
}

/// The entries a listing keeps from the raw rows, in input order.
pub open spec fn kept_of(raw: Seq<(Seq<char>, bool)>, show_hidden: bool) -> Seq<EntryV>
    decreases raw.len(),
{
    if raw.len() == 0 {
        Seq::empty()
    } else {
        let rest = kept_of(raw.drop_last(), show_hidden);
        let e = entry_of(raw.last());
        if keeps(e.name, show_hidden) {
            rest.push(e)
        } else {
            rest
        }
    }
}

/// The views of the raw rows a directory enumeration handed in.
pub open spec fn raw_view(raw: Seq<(String, bool)>) -> Seq<(Seq<char>, bool)> {
    raw.map_values(|p: (String, bool)| (p.0@, p.1))
}

/// Every kept entry passes the keep test and carries the name derived
/// from its path.
pub proof fn lemma_kept_of_facts(raw: Seq<(Seq<char>, bool)>, show_hidden: bool)
    ensures
        forall|k: int| 0 <= k < kept_of(raw, show_hidden).len() ==> keeps(
            (#[trigger] kept_of(raw, show_hidden)[k]).name,
            show_hidden,
        ) && entry_wf(kept_of(raw, show_hidden)[k]),
    decreases raw.len(),
{
    if raw.len() > 0 {
        lemma_kept_of_facts(raw.drop_last(), show_hidden);
        let rest = kept_of(raw.drop_last(), show_hidden);
        let e = entry_of(raw.last());
        let whole = kept_of(raw, show_hidden);
        if keeps(e.name, show_hidden) {
            assert(whole == rest.push(e));
            assert forall|k: int| 0 <= k < whole.len() implies keeps(
                (#[trigger] whole[k]).name,
                show_hidden,
            ) && entry_wf(whole[k]) by {
                if k < rest.len() {
                    assert(whole[k] == rest[k]);
                } else {
                    assert(whole[k] == e);
                }
            }
        } else {
            assert(whole == rest);
        }
    }
}

/// Decides `lex_le` on two names.
fn name_le(a: &str, b: &str) -> (r: bool)
    ensures
        r == lex_le(a@, b@),
{
    let an = a.unicode_len();
    let bn = b.unicode_len();
    proof {
        assert(a@.subrange(0, an as int) =~= a@);
        assert(b@.subrange(0, bn as int) =~= b@);
    }
    let mut i: usize = 0;
    while i < an && i < bn
        invariant
            i <= an,
            i <= bn,
            an == a@.len(),
            bn == b@.len(),
            lex_le(a@, b@) == lex_le(
                a@.subrange(i as int, an as int),
                b@.subrange(i as int, bn as int),
            ),
        decreases an - i,
    {
        let ca = a.get_char(i);
        let cb = b.get_char(i);
        proof {
            let sa = a@.subrange(i as int, an as int);
            let sb = b@.subrange(i as int, bn as int);
            assert(sa[0] == ca && sb[0] == cb);
            assert(sa.drop_first() =~= a@.subrange(i + 1, an as int));
            assert(sb.drop_first() =~= b@.subrange(i + 1, bn as int));
        }
        if ca != cb {
            return (ca as u32) < (cb as u32);
        }
        i = i + 1;
    }
    proof {
        if i == an {
            assert(a@.subrange(i as int, an as int) =~= Seq::<char>::empty());
        } else {
            assert(b@.subrange(i as int, bn as int) =~= Seq::<char>::empty());
            assert(a@.subrange(i as int, an as int).len() > 0);
        }
    }
    i == an
}

/// Decides the listing order on two entries.
fn entry_before(a: &Entry, b: &Entry) -> (r: bool)
    ensures
        r == entry_le(a@, b@),
{
    if a.is_dir == b.is_dir {
        name_le(a.name.as_str(), b.name.as_str())
    } else {
        a.is_dir
    }
}

/// Decides `keeps` on a name.
fn keep_name(name: &str, show_hidden: bool) -> (r: bool)
    ensures
        r == keeps(name@, show_hidden),
{
    let n = name.unicode_len();
    if n == 0 {
        return false;
    }
    let c0 = name.get_char(0);
    if c0 != '.' {
        proof {
            assert(seq!['.'][0] == '.');
            assert(seq!['.', '.'][0] == '.');
        }
        return true;
    }
    if n == 1 {
        proof {
            assert(name@ =~= seq!['.']);
        }
        return false;
    }
    if n == 2 && name.get_char(1) == '.' {
        proof {
            assert(name@ =~= seq!['.', '.']);
        }
        return false;
    }
    proof {
        assert(seq!['.'].len() == 1);
        assert(seq!['.', '.'].len() == 2);
        if name@ == seq!['.', '.'] {
            assert(name@.len() == 2 && name@[1] == '.');
        }
    }
    show_hidden
}

proof fn lemma_views_push(s: Seq<Entry>, e: Entry)
    ensures
        views(s.push(e)) =~= views(s).push(e@),
{
}

proof fn lemma_views_insert(s: Seq<Entry>, i: int, e: Entry)
    requires
        0 <= i <= s.len(),
    ensures
        views(s.insert(i, e)) =~= views(s).insert(i, e@),
{
    s.insert_ensures(i, e);
    views(s).insert_ensures(i, e@);
}

/// Insertion sort into listing order; keeps exactly the given entries.
fn sort_entries(v: Vec<Entry>) -> (r: Vec<Entry>)
    ensures
        views(r@).to_multiset() == views(v@).to_multiset(),
        views(r@).len() == views(v@).len(),
        ordered(views(r@)),
{
    broadcast use vstd::seq_lib::group_to_multiset_ensures;

    let mut src = v;
    let mut out: Vec<Entry> = Vec::new();
    let ghost full = views(src@);
    while src.len() > 0
        invariant
            views(out@).to_multiset().add(views(src@).to_multiset()) == full.to_multiset(),
            views(out@).len() + views(src@).len() == full.len(),
            ordered(views(out@)),
        decreases src@.len(),
    {
        let ghost pre_src = src@;
        let e = src.pop().unwrap();
        proof {
            assert(views(pre_src) =~= views(src@).push(e@));
        }
        let mut j: usize = 0;
        while j < out.len() && entry_before(&out[j], &e)
            invariant
                j <= out@.len(),
                forall|k: int| 0 <= k < j ==> entry_le(#[trigger] views(out@)[k], e@),
            decreases out@.len() - j,
        {
            j = j + 1;
        }
        let ghost ov = views(out@);
        proof {
            if (j as int) < ov.len() {
                assert(ov[j as int] == out@[j as int]@);
                assert(!entry_le(ov[j as int], e@));
                lemma_entry_le_total(ov[j as int], e@);
                assert forall|k: int| j <= k < ov.len() implies entry_le(e@, ov[k]) by {
                    if k == j {
                    } else {
                        lemma_entry_le_trans(e@, ov[j as int], ov[k]);
                    }
                }
            }
            lemma_views_insert(out@, j as int, e);
        }
        out.insert(j, e);
        proof {
            let nv = views(out@);
            assert(nv == ov.insert(j as int, e@));
            ov.insert_ensures(j as int, e@);
            vstd::seq_lib::to_multiset_insert(ov, j as int, e@);
            vstd::seq_lib::to_multiset_build(views(src@), e@);
            assert(views(src@).push(e@).to_multiset() =~= views(src@).to_multiset().insert(e@));
            assert(views(pre_src) == views(src@).push(e@));
            assert(views(pre_src).to_multiset() =~= views(src@).to_multiset().insert(e@));
            assert(nv.to_multiset() == ov.to_multiset().insert(e@));
            assert forall|p: int, q: int| 0 <= p < q < nv.len() implies entry_le(
                #[trigger] nv[p],
                #[trigger] nv[q],
            ) by {}
            assert(views(out@).to_multiset().add(views(src@).to_multiset()) =~= full.to_multiset());
        }
    }
    proof {
        assert(views(src@) =~= Seq::<EntryV>::empty());
        assert(views(out@).to_multiset() =~= full.to_multiset());
    }
    out
}

/// Builds the listing shown for one directory read: drops the
/// pseudo-entries `.` and `..` and every empty name, drops hidden names
/// unless `show_hidden` is set, derives each display name from its
/// path, and orders directories before files with names ascending
/// case-sensitively within each group.
pub fn build_listing(raw: Vec<(String, bool)>, show_hidden: bool) -> (r: Vec<Entry>)
    ensures
        views(r@).to_multiset() == kept_of(raw_view(raw@), show_hidden).to_multiset(),
        r@.len() == kept_of(raw_view(raw@), show_hidden).len(),
        ordered(views(r@)),
        forall|k: int| 0 <= k < r@.len() ==> entry_wf(#[trigger] views(r@)[k]) && keeps(
            views(r@)[k].name,
            show_hidden,
        ),
        !show_hidden ==> forall|k: int| 0 <= k < r@.len() ==> !is_hidden(
            (#[trigger] views(r@)[k]).name,
        ),
        forall|k: int| 0 <= k < r@.len() ==> !is_pseudo((#[trigger] views(r@)[k]).name),
{
    broadcast use vstd::seq_lib::group_to_multiset_ensures;

    let mut kept: Vec<Entry> = Vec::new();
    let mut i: usize = 0;
    while i < raw.len()
        invariant
            i <= raw@.len(),
            views(kept@) == kept_of(raw_view(raw@.subrange(0, i as int)), show_hidden),
        decreases raw@.len() - i,
    {
        let path = raw[i].0.clone();
        let is_dir = raw[i].1;
        let name = name_of(path.as_str());
        let ghost pre = views(kept@);
        let keep = keep_name(name.as_str(), show_hidden);
        if keep {
            let entry = Entry { path, name, is_dir };
            proof {
                lemma_views_push(kept@, entry);
            }
            kept.push(entry);
        }
        proof {
            let rv_pre = raw_view(raw@.subrange(0, i as int));
            let rv_post = raw_view(raw@.subrange(0, i + 1));
            assert(rv_post.drop_last() =~= rv_pre);
            assert(rv_post.last() == (raw@[i as int].0@, raw@[i as int].1));
            if keep {
                assert(views(kept@) =~= pre.push(entry_of(rv_post.last())));
            }
            assert(views(kept@) =~= kept_of(rv_post, show_hidden));
        }
        i = i + 1;
    }
    proof {
        assert(raw@.subrange(0, i as int) =~= raw@);
    }
    let r = sort_entries(kept);
    proof {
        let rv = raw_view(raw@);
        lemma_kept_of_facts(rv, show_hidden);
        assert(views(r@).len() == r@.len());
        assert forall|k: int| 0 <= k < r@.len() implies entry_wf(#[trigger] views(r@)[k]) && keeps(
            views(r@)[k].name,
            show_hidden,
        ) by {
            let e = views(r@)[k];
            assert(views(r@).contains(e));
            assert(views(r@).to_multiset().count(e) > 0);
            assert(kept_of(rv, show_hidden).to_multiset().count(e) > 0);
            assert(kept_of(rv, show_hidden).contains(e));
            let m = choose|m: int|
                0 <= m < kept_of(rv, show_hidden).len() && kept_of(rv, show_hidden)[m] == e;
            assert(keeps(kept_of(rv, show_hidden)[m].name, show_hidden));
        }
    }
    r
}

} // verus!

