//! The article-tree listing: the nodes the discovery view is built from.
//! The directory walk itself is filesystem work done at the process
//! boundary; these are the values it fills in.

use vstd::prelude::*;

verus! {

/// One directory of the article tree.
#[derive(Debug)]
pub struct DirectoryNode {
    /// The directory's location on disk.
    pub file_path: String,
    /// The URL naming the directory.
    pub url_path: String,
    /// The name shown for the directory: its stem, or its index article's
    /// title once one is found.
    pub name: String,
    /// The articles directly inside.
    pub files: Vec<FileNode>,
    /// The subdirectories, to be walked in turn.
    pub directories: Vec<DirectoryNode>,
    /// Whether the directory holds an index article.
    pub has_index: bool,
}

/// One article of the article tree.
#[derive(Debug)]
pub struct FileNode {
    /// The URL naming the article.
    pub url_path: String,
    /// The article's title.
    pub name: String,
}

impl DirectoryNode {
    /// An empty node for the directory at `path`, before the walk fills it.
    pub fn new(path: String, url_path: String, stem: String) -> (r: DirectoryNode)
        ensures
            r.file_path@ == path@,
            r.url_path@ == url_path@,
            r.name@ == stem@,
            r.files@.len() == 0,
            r.directories@.len() == 0,
            !r.has_index,
    {
        DirectoryNode {
            file_path: path,
            url_path,
            name: stem,
            files: Vec::new(),
            directories: Vec::new(),
            has_index: false,
        }
    }
}

} // verus!
