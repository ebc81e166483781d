use minicloud::fs_object::{FileType, FsObject, FsObjects, Metadata};
use minicloud::html_page_utils::{has_names, unordered_list, Index};
use minicloud::storage::{content_recursively, Request};
use std::collections::HashMap;

/// One entry of a made-up file system: its path, its metadata if they can
/// be had, and its entries if it can be listed.
struct Entry {
    path: &'static str,
    metadata: Option<Metadata>,
    entries: Option<Vec<&'static str>>,
}

fn file(path: &'static str, len: u64) -> Entry {
    Entry { path, metadata: Some(Metadata { file_type: FileType::File, len }), entries: None }
}

fn symlink(path: &'static str, entries: Option<Vec<&'static str>>) -> Entry {
    Entry { path, metadata: Some(Metadata { file_type: FileType::Symlink, len: 9 }), entries }
}

fn dir(path: &'static str, entries: Option<Vec<&'static str>>) -> Entry {
    Entry { path, metadata: Some(Metadata { file_type: FileType::Directory, len: 4096 }), entries }
}

fn find<'a>(disk: &'a [Entry], path: &str) -> Option<&'a Entry> {
    disk.iter().find(|entry| entry.path == path)
}

/// Walks `roots` over the made-up file system and counts what was asked.
fn scan(roots: &[&str], disk: &[Entry]) -> (FsObjects, Vec<String>) {
    let mut asked = Vec::new();
    let mut walk = content_recursively(roots.iter().map(|p| p.to_string()).collect());
    loop {
        match walk.request() {
            Request::Metadata(path) => {
                asked.push(format!("metadata {}", path));
                walk.metadata(find(disk, &path).and_then(|entry| entry.metadata));
            }
            Request::Entries(path) => {
                asked.push(format!("entries {}", path));
                let listed = find(disk, &path)
                    .and_then(|entry| entry.entries.clone())
                    .map(|list| list.iter().map(|p| p.to_string()).collect());
                walk.entries(listed);
            }
            Request::Done => break,
        }
    }
    (walk.into_forest(), asked)
}

fn paths(nodes: &[&FsObject]) -> Vec<String> {
    nodes.iter().map(|node| node.path.clone()).collect()
}

#[test]
fn scan_of_a_file_and_a_directory() {
    let disk = vec![
        file("/srv/a.txt", 4),
        dir("/srv/docs", Some(vec!["/srv/docs/b.md"])),
        file("/srv/docs/b.md", 12),
    ];
    let (forest, asked) = scan(&["/srv/a.txt", "/srv/docs"], &disk);
    assert_eq!(forest.len(), 2);
    assert_eq!(forest[0].path, "/srv/a.txt");
    assert!(forest[0].is_file());
    assert_eq!(forest[0].metadata.len, 4);
    assert!(forest[0].content.is_none());
    assert_eq!(forest[1].path, "/srv/docs");
    assert!(forest[1].is_dir());
    let below = forest[1].content.as_ref().unwrap();
    assert_eq!(below.len(), 1);
    assert_eq!(below[0].path, "/srv/docs/b.md");
    assert!(below[0].is_file());
    assert!(below[0].content.is_none());
    assert_eq!(
        asked,
        vec![
            "metadata /srv/a.txt",
            "metadata /srv/docs",
            "entries /srv/docs",
            "metadata /srv/docs/b.md",
        ]
    );

    assert!(has_names(&forest));
    let mut index: Index = HashMap::new();
    unordered_list(&forest, &mut index);
    assert_eq!(index.len(), 2);
    assert_eq!(index[&forest[0].get_hash()].path, "/srv/a.txt");
    assert_eq!(index[&below[0].get_hash()].path, "/srv/docs/b.md");
}

#[test]
fn missing_path_gives_no_node_and_the_scan_goes_on() {
    let disk = vec![file("/srv/a.txt", 4), file("/srv/c.txt", 7)];
    let (forest, asked) = scan(&["/srv/a.txt", "/srv/gone", "/srv/c.txt"], &disk);
    assert_eq!(forest.len(), 2);
    assert_eq!(forest[0].path, "/srv/a.txt");
    assert_eq!(forest[1].path, "/srv/c.txt");
    assert_eq!(asked, vec!["metadata /srv/a.txt", "metadata /srv/gone", "metadata /srv/c.txt"]);
}

#[test]
fn scan_of_nothing_is_empty() {
    let (forest, asked) = scan(&[], &[]);
    assert!(forest.is_empty());
    assert!(asked.is_empty());
}

#[test]
fn scan_of_missing_paths_only_is_empty() {
    let (forest, _) = scan(&["/gone", "/gone/too"], &[]);
    assert!(forest.is_empty());
}

#[test]
fn symlink_is_a_leaf_and_is_never_listed() {
    let disk = vec![
        symlink("/srv/link", Some(vec!["/srv/link/inside"])),
        file("/srv/link/inside", 1),
    ];
    let (forest, asked) = scan(&["/srv/link"], &disk);
    assert_eq!(forest.len(), 1);
    assert!(forest[0].is_symlink());
    assert!(forest[0].content.is_none());
    assert_eq!(asked, vec!["metadata /srv/link"]);
}

#[test]
fn file_is_never_listed() {
    let disk = vec![Entry {
        path: "/srv/a.txt",
        metadata: Some(Metadata { file_type: FileType::File, len: 4 }),
        entries: Some(vec!["/srv/a.txt/x"]),
    }];
    let (forest, asked) = scan(&["/srv/a.txt"], &disk);
    assert_eq!(forest.len(), 1);
    assert!(forest[0].content.is_none());
    assert_eq!(asked, vec!["metadata /srv/a.txt"]);
}

#[test]
fn directory_that_cannot_be_listed_is_left_out() {
    let disk = vec![dir("/srv/locked", None), file("/srv/z", 1)];
    let (forest, _) = scan(&["/srv/locked", "/srv/z"], &disk);
    assert_eq!(forest.len(), 1);
    assert_eq!(forest[0].path, "/srv/z");
}

#[test]
fn directory_without_entries_has_no_content() {
    let disk = vec![dir("/srv/empty", Some(vec![]))];
    let (forest, _) = scan(&["/srv/empty"], &disk);
    assert_eq!(forest.len(), 1);
    assert!(forest[0].is_dir());
    assert!(forest[0].content.is_none());
}

#[test]
fn directory_whose_entries_all_fail_has_no_content() {
    let disk = vec![dir("/srv/d", Some(vec!["/srv/d/x", "/srv/d/y"]))];
    let (forest, asked) = scan(&["/srv/d"], &disk);
    assert_eq!(forest.len(), 1);
    assert!(forest[0].content.is_none());
    assert_eq!(
        asked,
        vec!["metadata /srv/d", "entries /srv/d", "metadata /srv/d/x", "metadata /srv/d/y"]
    );
}

#[test]
fn entry_that_fails_is_left_out_of_its_directory() {
    let disk = vec![
        dir("/srv/d", Some(vec!["/srv/d/x", "/srv/d/gone", "/srv/d/y"])),
        file("/srv/d/x", 1),
        file("/srv/d/y", 2),
        file("/srv/e", 3),
    ];
    let (forest, _) = scan(&["/srv/d", "/srv/e"], &disk);
    assert_eq!(forest.len(), 2);
    let below = forest[0].content.as_ref().unwrap();
    assert_eq!(below.len(), 2);
    assert_eq!(below[0].path, "/srv/d/x");
    assert_eq!(below[1].path, "/srv/d/y");
    assert_eq!(forest[1].path, "/srv/e");
}

#[test]
fn nested_directories_close_in_turn() {
    let disk = vec![
        dir("/r", Some(vec!["/r/a", "/r/z"])),
        dir("/r/a", Some(vec!["/r/a/b"])),
        dir("/r/a/b", Some(vec!["/r/a/b/c"])),
        file("/r/a/b/c", 5),
        file("/r/z", 6),
    ];
    let (forest, _) = scan(&["/r"], &disk);
    assert_eq!(forest.len(), 1);
    let all = forest[0].recursive_iter();
    assert_eq!(paths(&all), vec!["/r", "/r/z", "/r/a", "/r/a/b", "/r/a/b/c"]);
    let a = &forest[0].content.as_ref().unwrap()[0];
    assert_eq!(a.path, "/r/a");
    let b = &a.content.as_ref().unwrap()[0];
    assert_eq!(b.path, "/r/a/b");
    assert_eq!(b.content.as_ref().unwrap()[0].path, "/r/a/b/c");
}

#[test]
fn answer_that_was_not_asked_for_changes_nothing() {
    let mut walk = content_recursively(vec!["/srv/a".to_string()]);
    walk.entries(Some(vec!["/srv/a/x".to_string()]));
    assert!(matches!(walk.request(), Request::Metadata(path) if path == "/srv/a"));
    walk.metadata(Some(Metadata { file_type: FileType::Directory, len: 0 }));
    walk.metadata(None);
    assert!(matches!(walk.request(), Request::Entries(path) if path == "/srv/a"));
    walk.entries(Some(vec![]));
    assert!(matches!(walk.request(), Request::Done));
    walk.metadata(None);
    walk.entries(None);
    let forest = walk.into_forest();
    assert_eq!(forest.len(), 1);
    assert!(forest[0].content.is_none());
}

#[test]
fn two_scans_of_the_same_state_give_the_same_identifiers() {
    let disk = vec![
        dir("/srv/docs", Some(vec!["/srv/docs/b.md", "/srv/docs/c.md"])),
        file("/srv/docs/b.md", 12),
        file("/srv/docs/c.md", 13),
    ];
    let (first, _) = scan(&["/srv/docs"], &disk);
    let (second, _) = scan(&["/srv/docs"], &disk);
    assert_eq!(first[0].get_hash(), second[0].get_hash());
    assert_eq!(first[0].get_hash(), first[0].get_hash());
    let left = first[0].content.as_ref().unwrap();
    let right = second[0].content.as_ref().unwrap();
    assert_eq!(left[0].get_hash(), right[0].get_hash());
    assert_eq!(left[1].get_hash(), right[1].get_hash());
    assert_ne!(left[0].get_hash(), left[1].get_hash());
    assert_ne!(first[0].get_hash(), left[0].get_hash());
}
