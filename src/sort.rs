use vstd::prelude::*;
use vstd::multiset::Multiset;
use vstd::seq_lib::group_to_multiset_ensures;
use crate::entry::{FileEntry, EntryView, views};
use crate::text::{lower_of, lex_le, lemma_lex_total, lemma_lex_trans, lowercase, text_le};

verus! {

/// Listing order: directories first, then by lower-case name.
pub open spec fn listing_le(x: EntryView, y: EntryView) -> bool {
    (x.is_dir && !y.is_dir) || (x.is_dir == y.is_dir && lex_le(lower_of(x.name), lower_of(y.name)))
}

/// Path order: by lower-case full path.
pub open spec fn path_le(x: EntryView, y: EntryView) -> bool {
    lex_le(lower_of(x.path), lower_of(y.path))
}

pub open spec fn order_le(by_path: bool, x: EntryView, y: EntryView) -> bool {
    if by_path {
        path_le(x, y)
    } else {
        listing_le(x, y)
    }
}

pub open spec fn sorted_by(by_path: bool, s: Seq<EntryView>) -> bool {
    forall|i: int, j: int| 0 <= i < j < s.len() ==> order_le(by_path, #[trigger] s[i], #[trigger] s[j])
}

proof fn lemma_order_total(by_path: bool, x: EntryView, y: EntryView)
    ensures
        order_le(by_path, x, y) || order_le(by_path, y, x),
{
    lemma_lex_total(lower_of(x.path), lower_of(y.path));
    lemma_lex_total(lower_of(x.name), lower_of(y.name));
}

proof fn lemma_order_trans(by_path: bool, x: EntryView, y: EntryView, z: EntryView)
    requires
        order_le(by_path, x, y),
        order_le(by_path, y, z),
    ensures
        order_le(by_path, x, z),
{
    if by_path {
        lemma_lex_trans(lower_of(x.path), lower_of(y.path), lower_of(z.path));
    } else if x.is_dir == y.is_dir && y.is_dir == z.is_dir {
        lemma_lex_trans(lower_of(x.name), lower_of(y.name), lower_of(z.name));
    }
}

proof fn lemma_insert_sorted(by_path: bool, s: Seq<EntryView>, p: int, x: EntryView)
    requires
        sorted_by(by_path, s),
        0 <= p <= s.len(),
        forall|k: int| 0 <= k < p ==> order_le(by_path, #[trigger] s[k], x),
        p < s.len() ==> !order_le(by_path, s[p], x),
    ensures
        sorted_by(by_path, s.insert(p, x)),
{
    let t = s.insert(p, x);
    if p < s.len() {
        lemma_order_total(by_path, s[p], x);
    }
    assert forall|i: int, j: int| 0 <= i < j < t.len() implies order_le(by_path, #[trigger] t[i], #[trigger] t[j]) by {
        if i == p && j > p && j - 1 > p {
            assert(order_le(by_path, s[p], s[j - 1]));
            lemma_order_trans(by_path, x, s[p], s[j - 1]);
        }
        if i < p && j > p {
            assert(order_le(by_path, s[i], s[j - 1]));
        }
        if i > p {
            assert(order_le(by_path, s[i - 1], s[j - 1]));
        }
    }
}

proof fn lemma_insert_multiset(s: Seq<EntryView>, p: int, x: EntryView)
    requires
        0 <= p <= s.len(),
    ensures
        s.insert(p, x).to_multiset() =~= s.to_multiset().insert(x),
{
    broadcast use group_to_multiset_ensures;
    let t = s.insert(p, x);
    assert(t.remove(p) =~= s);
    assert(t[p] == x);
    assert(t.contains(x));
}

/// Whether `a` comes no later than `b` in the chosen order.
pub fn entry_le(a: &FileEntry, b: &FileEntry, by_path: bool) -> (r: bool)
    ensures
        r == order_le(by_path, a@, b@),
{
    if by_path {
        let ka = lowercase(a.path.as_str());
        let kb = lowercase(b.path.as_str());
        text_le(ka.as_str(), kb.as_str())
    } else if a.is_dir != b.is_dir {
        a.is_dir
    } else {
        let ka = lowercase(a.name.as_str());
        let kb = lowercase(b.name.as_str());
        text_le(ka.as_str(), kb.as_str())
    }
}

/// Sorts entries in the chosen order, keeping each of them exactly once.
pub fn sort_entries(v: Vec<FileEntry>, by_path: bool) -> (r: Vec<FileEntry>)
    ensures
        views(r@).to_multiset() == views(v@).to_multiset(),
        sorted_by(by_path, views(r@)),
{
    broadcast use group_to_multiset_ensures;
    let mut rest = v;
    let mut out: Vec<FileEntry> = Vec::new();
    assert(views(out@).to_multiset().add(views(rest@).to_multiset()) =~= views(v@).to_multiset());
    while rest.len() > 0
        invariant
            views(out@).to_multiset().add(views(rest@).to_multiset()) == views(v@).to_multiset(),
            sorted_by(by_path, views(out@)),
        decreases rest.len(),
    {
        let ghost rest_before = rest@;
        let x = rest.pop().unwrap();
        assert(views(rest_before) =~= views(rest@).push(x@));
        proof { vstd::seq_lib::to_multiset_build(views(rest@), x@); }
        assert(views(rest_before).to_multiset() =~= views(rest@).to_multiset().insert(x@));
        let mut p: usize = 0;
        while p < out.len() && entry_le(&out[p], &x, by_path)
            invariant
                p <= out.len(),
                forall|k: int| 0 <= k < p ==> order_le(by_path, #[trigger] views(out@)[k], x@),
            decreases out.len() - p,
        {
            p = p + 1;
        }
        let ghost before = views(out@);
        proof {
            lemma_insert_sorted(by_path, before, p as int, x@);
            lemma_insert_multiset(before, p as int, x@);
        }
        out.insert(p, x);
        assert(views(out@) =~= before.insert(p as int, x@));
        assert(views(out@).to_multiset() =~= before.to_multiset().insert(x@));
        assert(views(out@).to_multiset().add(views(rest@).to_multiset()) =~= views(v@).to_multiset());
    }
    assert(views(rest@).to_multiset() =~= Multiset::empty());
    assert(views(out@).to_multiset() =~= views(out@).to_multiset().add(views(rest@).to_multiset()));
    out
}

} // verus!
