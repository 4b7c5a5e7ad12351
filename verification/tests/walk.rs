use std::collections::HashMap;

use dccmd_rs::app::nodes::upload::walk::{DirectoryWalk, EntryKind};

type Tree = HashMap<&'static str, Vec<(&'static str, EntryKind)>>;

fn entries_of(tree: &Tree, dir: &str) -> Vec<(String, EntryKind)> {
    tree.get(dir)
        .map(|v| v.iter().map(|(p, k)| (p.to_string(), *k)).collect())
        .unwrap_or_default()
}

fn run(tree: &Tree, root: &str) -> (Vec<String>, Vec<String>, Vec<String>) {
    let mut calls = vec![root.to_string()];
    let mut walk = DirectoryWalk::new();
    walk.open(entries_of(tree, root));
    while let Some(dir) = walk.next_directory() {
        calls.push(dir.clone());
        walk.open(entries_of(tree, &dir));
    }
    let (dirs, files) = walk.into_lists();
    (dirs, files, calls)
}

fn sample_tree() -> Tree {
    let mut t: Tree = HashMap::new();
    t.insert(
        "/root",
        vec![
            ("/root/first", EntryKind::Directory),
            ("/root/second", EntryKind::Directory),
            ("/root/file.txt", EntryKind::File),
        ],
    );
    t.insert(
        "/root/first",
        vec![
            ("/root/first/nested", EntryKind::Directory),
            ("/root/first/a.txt", EntryKind::File),
        ],
    );
    t.insert("/root/first/nested", vec![("/root/first/nested/b.txt", EntryKind::File)]);
    t.insert("/root/second", vec![("/root/second/c.txt", EntryKind::File)]);
    t
}

#[test]
fn walk_lists_directories_before_their_contents() {
    let (dirs, _, calls) = run(&sample_tree(), "/root");
    assert_eq!(dirs, vec!["/root/first", "/root/first/nested", "/root/second"]);
    assert_eq!(calls, vec!["/root", "/root/first", "/root/first/nested", "/root/second"]);
}

#[test]
fn walk_lists_files_in_visiting_order() {
    let (_, files, _) = run(&sample_tree(), "/root");
    assert_eq!(
        files,
        vec!["/root/first/nested/b.txt", "/root/first/a.txt", "/root/second/c.txt", "/root/file.txt"]
    );
}

#[test]
fn walk_of_an_empty_root() {
    let (dirs, files, calls) = run(&HashMap::new(), "/empty");
    assert!(dirs.is_empty());
    assert!(files.is_empty());
    assert_eq!(calls, vec!["/empty"]);
}
