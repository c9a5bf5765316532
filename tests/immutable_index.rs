use std::collections::HashMap;
use std::collections::HashSet;

use opendal::services::http;
use opendal::{ImmutableIndexLayer, Layer, LoggingLayer, ObjectMode, Operator};

fn http_operator() -> Operator<http::Backend> {
    let mut builder = http::Builder::default();
    builder.endpoint("https://xuanwo.io");
    Operator::new(builder.build().expect("endpoint is set"))
}

fn list_all(keys: &[&str], path: &str) -> HashMap<String, ObjectMode> {
    let mut iil = ImmutableIndexLayer::default();
    for i in keys {
        iil.insert(i.to_string())
    }
    let op = http_operator().layer(&LoggingLayer::default()).layer(&iil);
    let mut dir = op.accessor.blocking_list(path).expect("list must succeed");
    let mut map = HashMap::new();
    let mut set = HashSet::new();
    while let Some(page) = dir.inner_next_page() {
        for entry in page {
            assert!(set.insert(entry.path().to_string()), "duplicated value: {}", entry.path());
            map.insert(entry.path().to_string(), entry.mode());
        }
    }
    map
}

#[test]
fn test_list() {
    let map = list_all(&["file", "dir/", "dir/file", "dir_without_prefix/file"], "");
    assert_eq!(map["file"], ObjectMode::FILE);
    assert_eq!(map["dir/"], ObjectMode::DIR);
    assert_eq!(map["dir_without_prefix/"], ObjectMode::DIR);
    assert_eq!(map.len(), 3);
}

#[test]
fn test_list_dir() {
    let keys = [
        "dataset/stateful/ontime_2007_200.csv",
        "dataset/stateful/ontime_2008_200.csv",
        "dataset/stateful/ontime_2009_200.csv",
    ];
    let map = list_all(&keys, "/");
    assert_eq!(map.len(), 1);
    assert_eq!(map["dataset/"], ObjectMode::DIR);

    let map = list_all(&keys, "dataset/stateful/");
    assert_eq!(map.len(), 3);
    assert_eq!(map["dataset/stateful/ontime_2007_200.csv"], ObjectMode::FILE);
    assert_eq!(map["dataset/stateful/ontime_2008_200.csv"], ObjectMode::FILE);
    assert_eq!(map["dataset/stateful/ontime_2009_200.csv"], ObjectMode::FILE);
}

#[test]
fn list_of_a_key_itself_is_empty() {
    let map = list_all(&["dir/"], "dir/");
    assert!(map.is_empty());
}

#[test]
fn insert_twice_keeps_one_key() {
    let mut iil = ImmutableIndexLayer::default();
    iil.insert("a".to_string());
    iil.insert("a".to_string());
    iil.extend_iter(vec!["a".to_string(), "b".to_string()]);
    assert_eq!(iil.set.len(), 2);
}

#[test]
fn index_layer_adds_list_capability() {
    let op = http_operator();
    assert!(!op.metadata().capabilities.list);
    let iil = ImmutableIndexLayer::default();
    let op = op.layer(&iil);
    let meta = op.metadata();
    assert!(meta.capabilities.list);
    assert!(meta.capabilities.read);
    assert!(!meta.capabilities.write);
}

#[test]
fn pager_ends_after_one_page() {
    let mut iil = ImmutableIndexLayer::default();
    iil.insert("a".to_string());
    let op = http_operator().layer(&iil);
    let mut dir = op.accessor.blocking_list("/").unwrap();
    assert_eq!(dir.inner_next_page().map(|p| p.len()), Some(1));
    assert!(dir.inner_next_page().is_none());
}

#[test]
fn list_of_a_file_path_is_not_a_directory() {
    let mut iil = ImmutableIndexLayer::default();
    iil.insert("file".to_string());
    let op = http_operator().layer(&iil);
    assert_eq!(op.accessor.blocking_list("file").unwrap_err().kind(), opendal::ErrorKind::ObjectNotADirectory);
    assert!(op.accessor.blocking_list("").is_ok());
    assert!(op.accessor.blocking_list("dir/").is_ok());
}

#[test]
fn index_keeps_keys_in_order() {
    let mut iil = ImmutableIndexLayer::default();
    for k in ["dir/", "b", "a/x", "a", "dir/", "ab"] {
        iil.insert(k.to_string());
    }
    assert_eq!(iil.set, vec!["a", "a/x", "ab", "b", "dir/"]);
}

#[test]
fn index_pager_trait_gives_one_page() {
    use_page(ImmutableIndexLayer::default());
}

fn use_page(mut iil: ImmutableIndexLayer) {
    iil.insert("x".to_string());
    let op = http_operator().layer(&iil);
    let mut dir = op.accessor.blocking_list("/").unwrap();
    let page = opendal::ObjectPage::next_page(&mut dir).unwrap().unwrap();
    assert_eq!(page.len(), 1);
    assert!(opendal::ObjectPage::next_page(&mut dir).unwrap().is_none());
}
