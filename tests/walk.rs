use std::collections::HashMap;
use std::collections::HashSet;

use opendal::layers::immutable_index::ImmutableIndexAccessor;
use opendal::services::http;
use opendal::walk::{BottomUpWalker, TopDownWalker};
use opendal::{ImmutableIndexLayer, Layer, LoggingLayer, ObjectEntry, ObjectMode, Operator};

type Acc = ImmutableIndexAccessor<opendal::layers::logging::LoggingAccessor<http::Backend>>;

fn index_operator(keys: &[&str]) -> Operator<Acc> {
    let mut iil = ImmutableIndexLayer::default();
    for i in keys {
        iil.insert(i.to_string())
    }
    let mut builder = http::Builder::default();
    builder.endpoint("https://xuanwo.io");
    Operator::new(builder.build().unwrap())
        .layer(&LoggingLayer::default())
        .layer(&iil)
}

fn walk_top_down(op: &Operator<Acc>, root: &str) -> Vec<ObjectEntry> {
    let mut w = TopDownWalker::new(root);
    let mut out = Vec::new();
    while let Some(dir) = w.next_dir() {
        let path = dir.path().to_string();
        out.push(dir);
        let mut pager = op.accessor.blocking_list(&path).unwrap();
        while let Some(page) = pager.inner_next_page() {
            for e in w.on_page(page) {
                if !e.path().ends_with('/') {
                    out.push(e);
                }
            }
        }
    }
    out
}

fn walk_bottom_up(op: &Operator<Acc>, root: &str) -> Vec<ObjectEntry> {
    let mut w = BottomUpWalker::new(root);
    while let Some(path) = w.next_dir() {
        let mut pager = op.accessor.blocking_list(&path).unwrap();
        while let Some(page) = pager.inner_next_page() {
            w.on_page(page);
        }
    }
    w.finish()
}

fn collect(entries: Vec<ObjectEntry>) -> HashMap<String, ObjectMode> {
    let mut set = HashSet::new();
    let mut map = HashMap::new();
    for entry in entries {
        assert!(set.insert(entry.path().to_string()), "duplicated value: {}", entry.path());
        map.insert(entry.path().to_string(), entry.mode());
    }
    map
}

#[test]
fn test_walk_top_down() {
    let op = index_operator(&["file", "dir/", "dir/file", "dir_without_prefix/file"]);
    let map = collect(walk_top_down(&op, "/"));
    assert_eq!(map.len(), 6);
    assert_eq!(map["file"], ObjectMode::FILE);
    assert_eq!(map["dir/"], ObjectMode::DIR);
    assert_eq!(map["dir_without_prefix/"], ObjectMode::DIR);
}

#[test]
fn test_walk_top_down_dir() {
    let op = index_operator(&[
        "dataset/stateful/ontime_2007_200.csv",
        "dataset/stateful/ontime_2008_200.csv",
        "dataset/stateful/ontime_2009_200.csv",
    ]);
    let map = collect(walk_top_down(&op, "/"));
    assert_eq!(map.len(), 6);
    assert_eq!(map["dataset/stateful/ontime_2007_200.csv"], ObjectMode::FILE);
    assert_eq!(map["dataset/stateful/ontime_2008_200.csv"], ObjectMode::FILE);
    assert_eq!(map["dataset/stateful/ontime_2009_200.csv"], ObjectMode::FILE);
}

const TREE: [&str; 7] = ["x/", "x/y", "x/x/", "x/x/y", "x/x/x/", "x/x/x/y", "x/x/x/x/"];

fn position(paths: &[String], s: &str) -> usize {
    paths.iter().position(|p| p == s).unwrap_or_else(|| panic!("{s} is not walked"))
}

#[test]
fn walk_top_down_puts_parents_first() {
    let op = index_operator(&TREE);
    let paths: Vec<String> = walk_top_down(&op, "x/").iter().map(|e| e.path().to_string()).collect();
    assert_eq!(paths.len(), TREE.len());
    for p in TREE {
        for q in TREE {
            if p != q && p.ends_with('/') && q.starts_with(p) {
                assert!(position(&paths, p) < position(&paths, q), "{p} before {q}");
            }
        }
    }
}

#[test]
fn walk_bottom_up_puts_children_first() {
    let op = index_operator(&TREE);
    let paths: Vec<String> = walk_bottom_up(&op, "x/").iter().map(|e| e.path().to_string()).collect();
    assert_eq!(paths.len(), TREE.len());
    assert_eq!(paths.last().map(|s| s.as_str()), Some("x/"));
    for p in TREE {
        for q in TREE {
            if p != q && p.ends_with('/') && q.starts_with(p) {
                assert!(position(&paths, q) < position(&paths, p), "{q} before {p}");
            }
        }
    }
}

#[test]
fn remove_all_in_bottom_up_order_empties_each_dir_first() {
    let op = index_operator(&TREE);
    let mut remaining: HashSet<String> = TREE.iter().map(|s| s.to_string()).collect();
    for e in walk_bottom_up(&op, "x/") {
        let p = e.path().to_string();
        if p.ends_with('/') {
            assert!(!remaining.iter().any(|k| k != &p && k.starts_with(&p)), "{p} is not empty");
        }
        remaining.remove(&p);
    }
    assert!(remaining.is_empty());
}

#[test]
fn walk_synthesizes_elided_directories() {
    let op = index_operator(&["a/b/c"]);
    let paths: Vec<String> = walk_top_down(&op, "/").iter().map(|e| e.path().to_string()).collect();
    assert_eq!(paths, vec!["/".to_string(), "a/".to_string(), "a/b/".to_string(), "a/b/c".to_string()]);
}

#[test]
fn walk_synthesizes_directories_a_listing_leaves_out() {
    // A listing that returns every key under the prefix, at any depth.
    let keys = ["a/b/c", "a/b/d", "e"];
    let list = |dir: &str| -> Vec<ObjectEntry> {
        let prefix = if dir == "/" { "" } else { dir };
        keys.iter()
            .filter(|k| k.starts_with(prefix) && **k != prefix)
            .map(|k| ObjectEntry::new(k, opendal::ObjectMetadata::new(ObjectMode::FILE)))
            .collect()
    };
    let mut w = TopDownWalker::new("/");
    let mut paths = Vec::new();
    while let Some(dir) = w.next_dir() {
        let path = dir.path().to_string();
        paths.push(path.clone());
        for e in w.on_page(list(&path)) {
            paths.push(e.path().to_string());
        }
    }
    assert_eq!(paths, vec!["/", "e", "a/", "a/b/", "a/b/c", "a/b/d"]);
}
