use vstd::prelude::*;
use vstd::seq_lib::group_to_multiset_ensures;
use crate::entry::{FileEntry, EntryView, DirectoryContents, entry_of, views, new_entry};
use crate::error::{ErrorKind, Failure, failure};
use crate::sort::{sort_entries, sorted_by};
use crate::text::{hidden, is_hidden_name, is_markdown_name, lex_le, lower_of, markdown_name};

verus! {

/// A child of a directory as the directory read reports it.
#[derive(Debug)]
pub struct RawEntry {
    pub name: String,
    pub path: String,
    pub is_dir: bool,
}

/// The entries that a listing shows for `s`, in the order of `s`: every child
/// whose name is not hidden.
pub open spec fn visible_views(s: Seq<RawEntry>) -> Seq<EntryView>
    decreases s.len(),
{
    if s.len() == 0 {
        Seq::empty()
    } else {
        let prev = visible_views(s.drop_last());
        let r = s.last();
        if hidden(r.name@) {
            prev
        } else {
            prev.push(entry_of(r.name@, r.path@, r.is_dir))
        }
    }
}

proof fn lemma_visible_not_hidden(s: Seq<RawEntry>)
    ensures
        forall|k: int| 0 <= k < visible_views(s).len() ==> !hidden(#[trigger] visible_views(s)[k].name),
    decreases s.len(),
{
    if s.len() > 0 {
        lemma_visible_not_hidden(s.drop_last());
        let prev = visible_views(s.drop_last());
        assert forall|k: int| 0 <= k < prev.len() implies visible_views(s)[k] == #[trigger] prev[k] by {}
    }
}

/// An entry met while walking a tree: its base name, its full path, whether
/// it is a regular file, and the components of its path below the root of the
/// walk.
#[derive(Debug)]
pub struct WalkedEntry {
    pub name: String,
    pub path: String,
    pub is_file: bool,
    pub segments: Vec<String>,
}

/// An entry is under a hidden name when its own name or one of its path
/// components below the root is hidden.
pub open spec fn under_hidden(w: WalkedEntry) -> bool {
    hidden(w.name@) || exists|i: int| 0 <= i < w.segments@.len() && hidden(#[trigger] w.segments@[i]@)
}

pub open spec fn md_entry(w: WalkedEntry) -> bool {
    !under_hidden(w) && w.is_file && markdown_name(w.name@)
}

/// The entries that the markdown scan reports for `s`, in the order of `s`.
pub open spec fn md_views(s: Seq<WalkedEntry>) -> Seq<EntryView>
    decreases s.len(),
{
    if s.len() == 0 {
        Seq::empty()
    } else {
        let prev = md_views(s.drop_last());
        let w = s.last();
        if md_entry(w) {
            prev.push(EntryView { name: w.name@, path: w.path@, is_dir: false, is_markdown: true })
        } else {
            prev
        }
    }
}

proof fn lemma_md_views_shape(s: Seq<WalkedEntry>)
    ensures
        forall|k: int| 0 <= k < md_views(s).len() ==> {
            let e = #[trigger] md_views(s)[k];
            &&& !e.is_dir
            &&& e.is_markdown
            &&& markdown_name(e.name)
            &&& !hidden(e.name)
        },
    decreases s.len(),
{
    if s.len() > 0 {
        lemma_md_views_shape(s.drop_last());
        let prev = md_views(s.drop_last());
        assert forall|k: int| 0 <= k < prev.len() implies md_views(s)[k] == #[trigger] prev[k] by {}
    }
}

/// Decides whether `path` can be listed, from whether it exists and whether
/// it is a directory.
pub fn check_listable(path: &str, exists: bool, is_dir: bool) -> (r: Result<(), Failure>)
    ensures
        !exists ==> r is Err && r->Err_0@ == (ErrorKind::PathNotFound, "Directory does not exist: "@ + path@),
        exists && !is_dir ==> r is Err && r->Err_0@ == (ErrorKind::NotADirectory, "Path is not a directory: "@ + path@),
        exists && is_dir ==> r is Ok,
{
    if !exists {
        return Err(failure(ErrorKind::PathNotFound, "Directory does not exist: ", path));
    }
    if !is_dir {
        return Err(failure(ErrorKind::NotADirectory, "Path is not a directory: ", path));
    }
    Ok(())
}

/// Decides whether the tree under `path` can be scanned, from whether it
/// exists.
pub fn check_scannable(path: &str, exists: bool) -> (r: Result<(), Failure>)
    ensures
        !exists ==> r is Err && r->Err_0@ == (ErrorKind::PathNotFound, "Directory does not exist: "@ + path@),
        exists ==> r is Ok,
{
    if !exists {
        return Err(failure(ErrorKind::PathNotFound, "Directory does not exist: ", path));
    }
    Ok(())
}

/// The listing of directory `path` whose children are `children`: the
/// children whose names are not hidden, directories first, each group by
/// lower-case name.
pub fn build_listing(path: String, children: Vec<RawEntry>) -> (r: DirectoryContents)
    ensures
        r.path@ == path@,
        views(r.entries@).to_multiset() == visible_views(children@).to_multiset(),
        sorted_by(false, views(r.entries@)),
        forall|i: int| 0 <= i < r.entries@.len() ==> !hidden(#[trigger] r.entries@[i].name@),
        forall|i: int, j: int| 0 <= i < j < r.entries@.len() && !(#[trigger] r.entries@[i]).is_dir
            ==> !(#[trigger] r.entries@[j]).is_dir,
        forall|i: int, j: int| 0 <= i < j < r.entries@.len()
            && r.entries@[i].is_dir == r.entries@[j].is_dir
            ==> lex_le(lower_of((#[trigger] r.entries@[i]).name@), lower_of((#[trigger] r.entries@[j]).name@)),
{
    broadcast use group_to_multiset_ensures;
    let mut kept: Vec<FileEntry> = Vec::new();
    let mut i: usize = 0;
    while i < children.len()
        invariant
            i <= children@.len(),
            views(kept@) == visible_views(children@.subrange(0, i as int)),
        decreases children@.len() - i,
    {
        let c = &children[i];
        assert(children@.subrange(0, i + 1).drop_last() =~= children@.subrange(0, i as int));
        if !is_hidden_name(c.name.as_str()) {
            let e = new_entry(c.name.clone(), c.path.clone(), c.is_dir);
            kept.push(e);
        }
        assert(views(kept@) =~= visible_views(children@.subrange(0, i + 1)));
        i = i + 1;
    }
    assert(children@.subrange(0, i as int) =~= children@);
    let entries = sort_entries(kept, false);
    proof {
        lemma_visible_not_hidden(children@);
        assert forall|i: int| 0 <= i < entries@.len() implies !hidden(#[trigger] entries@[i].name@) by {
            assert(views(entries@)[i] == entries@[i]@);
            assert(views(entries@).contains(entries@[i]@));
            assert(views(entries@).to_multiset().count(entries@[i]@) > 0);
            assert(visible_views(children@).to_multiset().count(entries@[i]@) > 0);
            assert(visible_views(children@).contains(entries@[i]@));
            let k = choose|k: int| 0 <= k < visible_views(children@).len() && visible_views(children@)[k] == entries@[i]@;
            assert(!hidden(visible_views(children@)[k].name));
        }
        assert forall|i: int, j: int| 0 <= i < j < entries@.len() implies
            (!(#[trigger] entries@[i]).is_dir ==> !(#[trigger] entries@[j]).is_dir)
            && (entries@[i].is_dir == entries@[j].is_dir ==> lex_le(lower_of(entries@[i].name@), lower_of(entries@[j].name@))) by {
            assert(views(entries@)[i] == entries@[i]@);
            assert(views(entries@)[j] == entries@[j]@);
        }
    }
    DirectoryContents { path, entries }
}

/// The markdown files among the entries of a walk: regular files whose name
/// ends in ".md" in any case, outside every hidden name, ordered by lower-case
/// full path.
pub fn select_md_files(walked: Vec<WalkedEntry>) -> (r: Vec<FileEntry>)
    ensures
        views(r@).to_multiset() == md_views(walked@).to_multiset(),
        sorted_by(true, views(r@)),
        forall|i: int| 0 <= i < r@.len() ==> {
            let e = #[trigger] r@[i];
            &&& !e.is_dir
            &&& e.is_markdown
            &&& markdown_name(e.name@)
            &&& !hidden(e.name@)
        },
        forall|i: int, j: int| 0 <= i < j < r@.len()
            ==> lex_le(lower_of((#[trigger] r@[i]).path@), lower_of((#[trigger] r@[j]).path@)),
{
    broadcast use group_to_multiset_ensures;
    let mut kept: Vec<FileEntry> = Vec::new();
    let mut i: usize = 0;
    while i < walked.len()
        invariant
            i <= walked@.len(),
            views(kept@) == md_views(walked@.subrange(0, i as int)),
        decreases walked@.len() - i,
    {
        let w = &walked[i];
        assert(walked@.subrange(0, i + 1).drop_last() =~= walked@.subrange(0, i as int));
        let mut hidden_below = is_hidden_name(w.name.as_str());
        let mut k: usize = 0;
        while k < w.segments.len() && !hidden_below
            invariant
                k <= w.segments@.len(),
                hidden_below == (hidden(w.name@) || exists|m: int| 0 <= m < k && hidden(#[trigger] w.segments@[m]@)),
            decreases w.segments@.len() - k,
        {
            hidden_below = is_hidden_name(w.segments[k].as_str());
            k = k + 1;
        }
        assert(hidden_below == under_hidden(*w));
        if !hidden_below && w.is_file && is_markdown_name(w.name.as_str()) {
            kept.push(FileEntry { name: w.name.clone(), path: w.path.clone(), is_dir: false, is_markdown: true });
        }
        assert(views(kept@) =~= md_views(walked@.subrange(0, i + 1)));
        i = i + 1;
    }
    assert(walked@.subrange(0, i as int) =~= walked@);
    let entries = sort_entries(kept, true);
    proof {
        lemma_md_views_shape(walked@);
        assert forall|i: int| 0 <= i < entries@.len() implies {
            let e = #[trigger] entries@[i];
            &&& !e.is_dir
            &&& e.is_markdown
            &&& markdown_name(e.name@)
            &&& !hidden(e.name@)
        } by {
            assert(views(entries@)[i] == entries@[i]@);
            assert(views(entries@).contains(entries@[i]@));
            assert(views(entries@).to_multiset().count(entries@[i]@) > 0);
            assert(md_views(walked@).to_multiset().count(entries@[i]@) > 0);
            assert(md_views(walked@).contains(entries@[i]@));
        }
        assert forall|i: int, j: int| 0 <= i < j < entries@.len() implies
            lex_le(lower_of((#[trigger] entries@[i]).path@), lower_of((#[trigger] entries@[j]).path@)) by {
            assert(views(entries@)[i] == entries@[i]@);
            assert(views(entries@)[j] == entries@[j]@);
        }
    }
    entries
}

/// The entry for an existing or missing path, from its base name and whether
/// it is a directory.
pub fn describe_path(path: String, file_name: String, exists: bool, is_dir: bool) -> (r: Result<FileEntry, Failure>)
    ensures
        !exists ==> r is Err && r->Err_0@ == (ErrorKind::PathNotFound, "File does not exist: "@ + path@),
        exists ==> r is Ok && r->Ok_0@ == entry_of(file_name@, path@, is_dir),
{
    if !exists {
        return Err(failure(ErrorKind::PathNotFound, "File does not exist: ", path.as_str()));
    }
    Ok(new_entry(file_name, path, is_dir))
}

} // verus!
