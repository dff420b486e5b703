use mdwatch::filter::{is_markdown_name, str_ends_with, PathFilter};
use mdwatch::listing::{markdown_entry, scan_root, entry_relative_path, DirEntry, FileMeta};

#[test]
fn suffix_match_is_exact() {
    assert!(str_ends_with("notes/readme.md", ".md"));
    assert!(!str_ends_with("notes/readme.mdx", ".md"));
    assert!(!str_ends_with("md", ".md"));
    assert!(str_ends_with(".md", ".md"));
    assert!(str_ends_with("anything", ""));
}

#[test]
fn markdown_names() {
    assert!(is_markdown_name("a.md"));
    assert!(!is_markdown_name("a.txt"));
    assert!(!is_markdown_name("amd"));
}

#[test]
fn custom_filter_suffix() {
    let f = PathFilter::new(".rs".to_string());
    assert!(f.matches("src/lib.rs"));
    assert!(!f.matches("src/lib.md"));
    let md = PathFilter::markdown();
    assert!(md.matches("doc/x.md"));
}

#[test]
fn dir_entries_are_labelled_by_kind() {
    let d = DirEntry::labelled("src".to_string(), true);
    assert_eq!(d.name, "src");
    assert_eq!(d.kind, "directory");
    let f = DirEntry::labelled("lib.rs".to_string(), false);
    assert_eq!(f.kind, "file");
}

#[test]
fn scan_root_joins_only_nonempty_subdir() {
    assert_eq!(scan_root("/root", ""), "/root");
    assert_eq!(scan_root("/root", "sub"), "/root/sub");
}

#[test]
fn relative_paths_grow_as_the_walk_descends() {
    assert_eq!(entry_relative_path("", "a.md"), "a.md");
    assert_eq!(entry_relative_path("docs", "a.md"), "docs/a.md");
    assert_eq!(entry_relative_path("docs/deep", "a.md"), "docs/deep/a.md");
}

#[test]
fn markdown_listing_keeps_only_markdown_files() {
    let kept = markdown_entry("docs", "a.md", true, 42).expect("markdown file is kept");
    assert_eq!(kept.name, "a.md");
    assert_eq!(kept.path, "docs/a.md");
    assert_eq!(kept.modified, 42);

    assert!(markdown_entry("docs", "a.txt", true, 42).is_none());
    // A directory named like a markdown file is walked, not listed.
    assert!(markdown_entry("docs", "a.md", false, 42).is_none());
}

#[test]
fn file_meta_carries_millis() {
    let m = FileMeta { modified: 1700000000000 };
    assert_eq!(m.modified, 1700000000000);
}
