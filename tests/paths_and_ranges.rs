use opendal::path::{build_abs_path, build_rel_path, build_rooted_abs_path, get_basename, normalize_root};
use opendal::range::{parse_u64, BytesContentRange, BytesRange};
use opendal::services::fs::tmp_file_of;
use opendal::ErrorKind;

#[test]
fn test_tmp_file_of() {
    let cases = vec![
        ("hello.txt", "hello.txt"),
        ("/tmp/opendal.log", "opendal.log"),
        ("/abc/def/hello.parquet", "hello.parquet"),
    ];

    for (path, expected_prefix) in cases {
        let tmp_file = tmp_file_of(path);
        assert!(tmp_file.len() > expected_prefix.len());
        assert!(tmp_file.starts_with(expected_prefix));
    }
}

#[test]
fn tmp_file_names_differ_and_carry_a_dotted_suffix() {
    let a = tmp_file_of("dir/hello.txt");
    let b = tmp_file_of("dir/hello.txt");
    assert_ne!(a, b);
    assert_eq!(a.len(), "hello.txt.".len() + 36);
    assert!(a.starts_with("hello.txt."));
}

#[test]
fn normalize_root_forms() {
    assert_eq!(normalize_root(""), "/");
    assert_eq!(normalize_root("/"), "/");
    assert_eq!(normalize_root("abc"), "/abc/");
    assert_eq!(normalize_root("/abc/def/"), "/abc/def/");
    assert_eq!(normalize_root("//abc//def"), "/abc/def/");
}

#[test]
fn abs_paths_under_a_root() {
    assert_eq!(build_abs_path("/", "/"), "");
    assert_eq!(build_abs_path("/root/", "/"), "root/");
    assert_eq!(build_abs_path("/root/", "a/b"), "root/a/b");
    assert_eq!(build_rooted_abs_path("/root/", "a/b"), "/root/a/b");
    assert_eq!(build_rooted_abs_path("/root/", "/"), "/root/");
    assert_eq!(build_rel_path("/root/", "/root/a/b"), "a/b");
    assert_eq!(build_rel_path("/root/", "root/a/"), "a/");
}

#[test]
fn basenames() {
    assert_eq!(get_basename("/"), "/");
    assert_eq!(get_basename("abc"), "abc");
    assert_eq!(get_basename("abc/def"), "def");
    assert_eq!(get_basename("abc/"), "abc/");
    assert_eq!(get_basename("abc/def/"), "def/");
}

#[test]
fn range_headers() {
    assert_eq!(BytesRange::new(Some(0), Some(5)).to_header(), "bytes=0-4");
    assert_eq!(BytesRange::new(Some(1024), None).to_header(), "bytes=1024-");
    assert_eq!(BytesRange::new(None, Some(100)).to_header(), "bytes=-100");
    assert_eq!(BytesRange::new(None, None).to_header(), "bytes=0-");
    assert!(BytesRange::new(Some(0), None).is_full());
    assert!(!BytesRange::new(Some(1), None).is_full());
    assert!(BytesRange::new(None, Some(3)).is_suffix());
}

#[test]
fn ranges_resolve_against_a_length() {
    assert_eq!(BytesRange::new(Some(2), Some(5)).resolve(4), (2, 4));
    assert_eq!(BytesRange::new(Some(2), Some(1)).resolve(4), (2, 3));
    assert_eq!(BytesRange::new(Some(2), None).resolve(10), (2, 10));
    assert_eq!(BytesRange::new(None, Some(3)).resolve(10), (7, 10));
    assert_eq!(BytesRange::new(None, Some(30)).resolve(10), (0, 10));
    assert_eq!(BytesRange::new(None, None).resolve(10), (0, 10));
}

#[test]
fn content_ranges_render_and_parse() {
    let c = BytesContentRange::new().with_range(0, 99).with_size(1000);
    assert_eq!(c.to_header(), "bytes 0-99/1000");
    assert_eq!(BytesContentRange::parse("bytes 0-99/1000").unwrap(), c);
    assert_eq!(BytesContentRange::new().with_range(0, 99).to_header(), "bytes 0-99/*");
    assert_eq!(BytesContentRange::parse("bytes 0-99/*").unwrap(), BytesContentRange::new().with_range(0, 99));
    assert_eq!(BytesContentRange::new().with_size(1000).to_header(), "bytes */1000");
    assert_eq!(BytesContentRange::parse("bytes */1000").unwrap(), BytesContentRange::new().with_size(1000));
    assert_eq!(c.len(), Some(100));
    for bad in ["0-99/1000", "bytes 0-99", "bytes 0-99/10/00", "bytes 99/1000", "bytes a-b/1", "bytes */*"] {
        assert_eq!(BytesContentRange::parse(bad).unwrap_err().kind(), ErrorKind::Unexpected, "{bad}");
    }
}

#[test]
fn integers_parse_as_u64_from_str_does() {
    let p = |s: &str| parse_u64(&s.chars().collect());
    assert_eq!(p("0"), Some(0));
    assert_eq!(p("+42"), Some(42));
    assert_eq!(p("18446744073709551615"), Some(u64::MAX));
    assert_eq!(p("18446744073709551616"), None);
    assert_eq!(p(""), None);
    assert_eq!(p("+"), None);
    assert_eq!(p("-1"), None);
    assert_eq!(p("1 "), None);
}

#[test]
fn range_headers_read_back() {
    for r in [
        BytesRange::new(Some(0), Some(5)),
        BytesRange::new(Some(1024), None),
        BytesRange::new(None, Some(100)),
        BytesRange::new(Some(7), Some(1)),
    ] {
        assert_eq!(BytesRange::parse(&r.to_header()).unwrap(), r);
    }
    assert_eq!(BytesRange::parse("bytes=0-").unwrap(), BytesRange::new(Some(0), None));
    for bad in ["bytes=", "bytes=-", "bytes=5-4", "0-4", "bytes=1-2-3", "bytes=a-4"] {
        assert_eq!(BytesRange::parse(bad).unwrap_err().kind(), ErrorKind::Unexpected, "{bad}");
    }
}

#[test]
fn tmp_file_suffix_is_a_hyphenated_uuid() {
    let t = tmp_file_of("a/b.txt");
    let u = &t["b.txt.".len()..];
    assert_eq!(u.len(), 36);
    for (i, c) in u.chars().enumerate() {
        if [8, 13, 18, 23].contains(&i) {
            assert_eq!(c, '-');
        } else {
            assert!(c.is_ascii_digit() || ('a'..='f').contains(&c), "{u}");
        }
    }
}
