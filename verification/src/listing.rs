//! Values and rules for directory listings: what a directory entry is
//! called, how relative paths are assembled while a tree is walked, and
//! which entries a markdown listing keeps.  The walking itself — reading
//! directories and metadata — is the surrounding program's business; it hands
//! plain names and flags in and takes the decided values back.

use vstd::prelude::*;

use crate::filter::{is_markdown_name, is_suffix_of};

verus! {

/// One file in a recursive markdown listing.
#[derive(Clone, Debug)]
pub struct FileInfo {
    /// The file's own name.
    pub name: String,
    /// Its path relative to the listing root.
    pub path: String,
    /// Modification time, in milliseconds since the epoch.
    pub modified: u64,
}

/// Metadata reported for a single file.
#[derive(Clone, Copy, Debug, PartialEq, Eq, Structural)]
pub struct FileMeta {
    /// Modification time, in milliseconds since the epoch.
    pub modified: u64,
}

/// One entry of a flat directory listing.
#[derive(Clone, Debug)]
pub struct DirEntry {
    pub name: String,
    /// Either `directory` or `file`.
    pub kind: String,
}

impl DirEntry {
    /// The listing entry for a name, labelled by what the metadata showed.
    pub fn labelled(name: String, is_dir: bool) -> (e: DirEntry)
        ensures
            e.name == name,
            is_dir ==> e.kind@ == "directory"@,
            !is_dir ==> e.kind@ == "file"@,
    {
        let kind = if is_dir {
            String::from_str("directory")
        } else {
            String::from_str("file")
        };
        DirEntry { name, kind }
    }
}

/// The root a recursive listing scans: the directory itself, or the given
/// subdirectory under it.
pub open spec fn scan_root_view(dir: Seq<char>, subdir: Seq<char>) -> Seq<char> {
    if subdir.len() == 0 {
        dir
    } else {
        dir + "/"@ + subdir
    }
}

/// Assemble the path a recursive listing starts from.
pub fn scan_root(dir_path: &str, subdir: &str) -> (p: String)
    ensures
        p@ == scan_root_view(dir_path@, subdir@),
{
    if subdir.is_empty() {
        String::from_str(dir_path)
    } else {
        let mut p = String::from_str(dir_path);
        p.append("/");
        p.append(subdir);
        p
    }
}

/// An entry's path relative to the listing root, while the walk descends.
pub open spec fn relative_entry_view(relative_dir: Seq<char>, name: Seq<char>) -> Seq<char> {
    if relative_dir.len() == 0 {
        name
    } else {
        relative_dir + "/"@ + name
    }
}

/// Assemble the relative path of one entry of the walked tree.
pub fn entry_relative_path(relative_dir: &str, name: &str) -> (p: String)
    ensures
        p@ == relative_entry_view(relative_dir@, name@),
{
    if relative_dir.is_empty() {
        String::from_str(name)
    } else {
        let mut p = String::from_str(relative_dir);
        p.append("/");
        p.append(name);
        p
    }
}

/// Decide one entry of the walk: a markdown listing keeps exactly the plain
/// files whose name ends in `.md`, under their path relative to the root.
pub fn markdown_entry(relative_dir: &str, name: &str, is_file: bool, modified: u64) -> (r: Option<
    FileInfo,
>)
    ensures
        r is Some <==> is_file && is_suffix_of(".md"@, name@),
        r matches Some(f) ==> f.name@ == name@ && f.path@ == relative_entry_view(
            relative_dir@,
            name@,
        ) && f.modified == modified,
{
    if is_file && is_markdown_name(name) {
        Some(
            FileInfo {
                name: String::from_str(name),
                path: entry_relative_path(relative_dir, name),
                modified,
            },
        )
    } else {
        None
    }
}

} // verus!
