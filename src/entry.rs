use vstd::prelude::*;
use crate::text::{markdown_name, is_markdown_name};

verus! {

/// One child of a directory, as the listings report it.
#[derive(Debug)]
pub struct FileEntry {
    pub name: String,
    pub path: String,
    pub is_dir: bool,
    pub is_markdown: bool,
}

pub struct EntryView {
    pub name: Seq<char>,
    pub path: Seq<char>,
    pub is_dir: bool,
    pub is_markdown: bool,
}

impl View for FileEntry {
    type V = EntryView;

    open spec fn view(&self) -> EntryView {
        EntryView {
            name: self.name@,
            path: self.path@,
            is_dir: self.is_dir,
            is_markdown: self.is_markdown,
        }
    }
}

/// The entry for a path with the given base name: a markdown entry is a file
/// whose name ends in ".md", whatever the case.
pub open spec fn entry_of(name: Seq<char>, path: Seq<char>, is_dir: bool) -> EntryView {
    EntryView { name, path, is_dir, is_markdown: !is_dir && markdown_name(name) }
}

pub open spec fn views(s: Seq<FileEntry>) -> Seq<EntryView> {
    s.map_values(|e: FileEntry| e@)
}

/// A directory and its visible children, in listing order.
#[derive(Debug)]
pub struct DirectoryContents {
    pub path: String,
    pub entries: Vec<FileEntry>,
}

/// One change that the watcher observed under the watched directory.
#[derive(Debug)]
pub struct FileChangeEvent {
    pub path: String,
    pub kind: String,
}

/// Builds the entry of a path from its base name and whether it is a directory.
pub fn new_entry(name: String, path: String, is_dir: bool) -> (r: FileEntry)
    ensures
        r@ == entry_of(name@, path@, is_dir),
{
    let is_markdown = !is_dir && is_markdown_name(name.as_str());
    FileEntry { name, path, is_dir, is_markdown }
}

} // verus!
