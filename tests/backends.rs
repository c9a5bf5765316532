use opendal::header::{parse_into_object_metadata, HeaderList};
use opendal::metadata::ObjectMode;
use opendal::offset_reader::SeekFrom;
use opendal::range::BytesRange;
use opendal::services::fs::{self, check_path_mode, delete_step, mode_from_fs, read_span, DeleteStep};
use opendal::services::ghac::{self, CreateStep, GhacEnv};
use opendal::services::{ftp, http, obs};
use opendal::{Accessor, Error, ErrorKind, ObjectPage};

fn headers(pairs: &[(&str, &str)]) -> HeaderList {
    let mut h = HeaderList::new();
    for (k, v) in pairs {
        h.push(k.to_string(), v.as_bytes().to_vec());
    }
    h
}

#[test]
fn test_stat() {
    let h = headers(&[("content-length", "128")]);
    let meta = http::stat_reply("hello", 200, &h).unwrap();
    assert_eq!(meta.mode(), ObjectMode::FILE);
    assert_eq!(meta.content_length(), 128);
}

#[test]
fn http_read_of_a_partial_reply() {
    let range = BytesRange::new(Some(0), Some(5));
    assert_eq!(http::range_header_for(range).as_deref(), Some("bytes=0-4"));
    assert_eq!(http::range_header_for(BytesRange::new(None, None)), None);
    let h = headers(&[("content-length", "5"), ("content-range", "bytes 0-4/13")]);
    let meta = http::read_reply("hello", 206, &h).unwrap();
    assert_eq!(meta.content_length(), 5);
    assert_eq!(meta.content_range.unwrap().total, Some(13));
    assert_eq!(http::read_reply("hello", 404, &h).unwrap_err().kind(), ErrorKind::ObjectNotFound);
}

#[test]
fn stat_of_root_is_a_directory() {
    let h = HeaderList::new();
    assert_eq!(http::stat_reply("/", 500, &h).unwrap().mode(), ObjectMode::DIR);
    assert_eq!(obs::stat_reply("/", 500, &h).unwrap().mode(), ObjectMode::DIR);
    let b = ghac_backend(false);
    assert_eq!(b.stat_query_reply("/", 500).unwrap().unwrap().mode(), ObjectMode::DIR);
}

#[test]
fn stat_of_missing_prefix_is_a_directory() {
    let h = HeaderList::new();
    assert_eq!(http::stat_reply("dir/", 404, &h).unwrap().mode(), ObjectMode::DIR);
    assert_eq!(http::stat_reply("dir/", 403, &h).unwrap().mode(), ObjectMode::DIR);
    assert_eq!(http::stat_reply("file", 404, &h).unwrap_err().kind(), ErrorKind::ObjectNotFound);
    assert_eq!(http::stat_reply("file", 403, &h).unwrap_err().kind(), ErrorKind::ObjectPermissionDenied);
    assert_eq!(obs::stat_reply("dir/", 404, &h).unwrap().mode(), ObjectMode::DIR);
    assert_eq!(obs::stat_reply("dir/", 403, &h).unwrap_err().kind(), ErrorKind::ObjectPermissionDenied);
}

#[test]
fn standard_headers_fill_metadata() {
    let h = headers(&[
        ("content-length", "13"),
        ("content-type", "text/plain"),
        ("etag", "\"abc\""),
        ("content-md5", "md5"),
        ("last-modified", "Tue, 15 Nov 1994 08:12:31 GMT"),
    ]);
    let m = parse_into_object_metadata("a/b", &h).unwrap();
    assert_eq!(m.mode(), ObjectMode::FILE);
    assert_eq!(m.content_length_raw(), Some(13));
    assert_eq!(m.content_type.as_deref(), Some("text/plain"));
    assert_eq!(m.etag.as_deref(), Some("\"abc\""));
    assert_eq!(m.content_md5.as_deref(), Some("md5"));
    assert_eq!(m.last_modified, Some(784887151));
    assert_eq!(parse_into_object_metadata("a/", &HeaderList::new()).unwrap().mode(), ObjectMode::DIR);
}

#[test]
fn malformed_headers_are_errors() {
    for h in [
        headers(&[("content-length", "12a")]),
        headers(&[("last-modified", "yesterday")]),
        headers(&[("content-range", "bytes 1-2")]),
    ] {
        assert_eq!(parse_into_object_metadata("a", &h).unwrap_err().kind(), ErrorKind::Unexpected);
    }
    let mut h = HeaderList::new();
    h.push("etag".to_string(), vec![0xff, 0x41]);
    assert!(parse_into_object_metadata("a", &h).is_err());
}

#[test]
fn http_builder_needs_an_endpoint() {
    let mut b = http::Builder::new();
    b.root("abc");
    assert_eq!(b.build().unwrap_err().kind(), ErrorKind::BackendConfigInvalid);
    b.endpoint("https://example.com");
    let backend = b.build().unwrap();
    assert_eq!(backend.root, "/abc/");
    let m = backend.metadata();
    assert!(m.capabilities.read && !m.capabilities.write && !m.capabilities.list);
    assert!(m.hints.read_is_streamable);
}

#[test]
fn fs_builder_normalises() {
    let mut b = fs::Builder::from_iter(vec![
        ("root".to_string(), "/tmp//data".to_string()),
        ("atomic_write_dir".to_string(), "scratch".to_string()),
        ("other".to_string(), "x".to_string()),
    ]);
    let backend = b.build().unwrap();
    assert_eq!(backend.root, "/tmp/data/");
    assert_eq!(backend.atomic_write_dir.as_deref(), Some("/scratch/"));
    let mut b = fs::Builder::new();
    b.root("a").root("");
    assert_eq!(b.root, None);
    assert_eq!(b.build().unwrap().root, "/");
}

#[test]
fn fs_decisions() {
    assert_eq!(read_span(BytesRange::new(Some(2), Some(5)), 4), (2, 4, 2));
    assert_eq!(read_span(BytesRange::new(Some(6), None), 4), (6, 4, 0));
    assert!(check_path_mode("dir/", true).is_ok());
    assert_eq!(check_path_mode("dir", true).unwrap_err().kind(), ErrorKind::ObjectNotFound);
    assert_eq!(check_path_mode("file/", false).unwrap_err().kind(), ErrorKind::ObjectNotFound);
    assert_eq!(mode_from_fs(false, false), ObjectMode::Unknown);
    assert!(matches!(delete_step(Err(Error::new(ErrorKind::ObjectNotFound, "x"))), DeleteStep::Done));
    assert!(matches!(delete_step(Err(Error::new(ErrorKind::Unexpected, "x"))), DeleteStep::Fail(_)));
    assert!(matches!(delete_step(Ok(true)), DeleteStep::RemoveDir));
    assert!(matches!(delete_step(Ok(false)), DeleteStep::RemoveFile));
    assert_eq!(fs::check_readable(true).unwrap_err().kind(), ErrorKind::ObjectIsADirectory);
}

fn ghac_backend(simulation: bool) -> ghac::Backend {
    let mut b = ghac::Builder::new();
    b.root("cache").version("v1");
    if simulation {
        b.enable_create_simulation();
    }
    b.build(GhacEnv {
        cache_url: Some("https://cache/".to_string()),
        runtime_token: Some("token".to_string()),
        api_url: None,
        api_token: Some("gh".to_string()),
        repo: Some("o/r".to_string()),
    })
    .unwrap()
}

#[test]
fn ghac_empty_file_simulation() {
    let b = ghac_backend(true);
    let mut step = b.create_start("x");
    let mut steps = Vec::new();
    loop {
        step = match step {
            CreateStep::Reserve(size) => {
                steps.push("reserve");
                b.on_reserve(size, 201, Some(7), true)
            }
            CreateStep::Upload(id, size) => {
                steps.push("upload");
                assert_eq!((id, size), (7, 1));
                assert_eq!(ghac::upload_content_range(size), "bytes 0-0/*");
                b.on_upload(id, size, 204)
            }
            CreateStep::Commit(id, size) => {
                steps.push("commit");
                assert_eq!((id, size), (7, 1));
                b.on_commit(204)
            }
            CreateStep::Done => break,
            CreateStep::Fail(e) => panic!("{:?}", e),
        }
    }
    assert_eq!(steps, vec!["reserve", "upload", "commit"]);

    let h = headers(&[("content-length", "1")]);
    assert_eq!(b.stat_head_reply("x", 200, &h).unwrap().content_length(), 0);
    assert!(b.delete_check().is_ok());
    assert!(b.delete_reply(204).is_ok());
    assert!(b.delete_reply(404).is_ok());
    assert!(matches!(b.on_reserve(1, 409, None, true), CreateStep::Done));
}

#[test]
fn ghac_without_simulation() {
    let b = ghac_backend(false);
    assert!(matches!(b.create_start("dir/"), CreateStep::Done));
    match b.create_start("x") {
        CreateStep::Fail(e) => assert_eq!(e.kind(), ErrorKind::Unsupported),
        _ => panic!("create must fail"),
    }
    let h = headers(&[("content-length", "1")]);
    assert_eq!(b.stat_head_reply("x", 200, &h).unwrap().content_length(), 1);
    assert_eq!(b.location_range_header(BytesRange::new(None, Some(4))).unwrap_err().kind(), ErrorKind::Unsupported);
    assert_eq!(b.location_range_header(BytesRange::new(Some(1), Some(4))).unwrap().as_deref(), Some("bytes=1-4"));
    assert!(matches!(b.on_reserve(1, 409, None, false), CreateStep::Fail(_)));
    assert_eq!(b.metadata().name, "v1");
    assert_eq!(b.api_url, "https://api.github.com");
    assert_eq!(b.root, "/cache/");
}

#[test]
fn ghac_build_needs_the_runner_environment() {
    let mut b = ghac::Builder::new();
    let env = GhacEnv { cache_url: None, runtime_token: Some("t".to_string()), api_url: None, api_token: None, repo: None };
    assert_eq!(b.build(env).unwrap_err().kind(), ErrorKind::BackendConfigInvalid);
    let env = GhacEnv { cache_url: Some("u".to_string()), runtime_token: None, api_url: None, api_token: None, repo: None };
    assert_eq!(b.build(env).unwrap_err().kind(), ErrorKind::BackendConfigInvalid);
    let env = GhacEnv { cache_url: Some("u".to_string()), runtime_token: Some("t".to_string()), api_url: None, api_token: None, repo: None };
    let backend = b.build(env).unwrap();
    assert_eq!(backend.version, "opendal");
    assert_eq!(backend.delete_check().unwrap_err().kind(), ErrorKind::ObjectPermissionDenied);
}

#[test]
fn obs_endpoints() {
    let mut b = obs::Builder::new();
    assert_eq!(b.build().unwrap_err().kind(), ErrorKind::BackendConfigInvalid);
    b.bucket("bkt");
    assert_eq!(b.build().unwrap_err().kind(), ErrorKind::BackendConfigInvalid);
    b.endpoint("https://obs.cn-north-4.myhuaweicloud.com/");
    assert_eq!(b.endpoint.as_deref(), Some("https://obs.cn-north-4.myhuaweicloud.com"));
    let backend = b.build().unwrap();
    assert_eq!(backend.endpoint, "https://bkt.obs.cn-north-4.myhuaweicloud.com");
    assert_eq!(backend.signer_bucket, "bkt");

    b.endpoint("custom.obs.com");
    let backend = b.build().unwrap();
    assert_eq!(backend.endpoint, "https://custom.obs.com");
    assert_eq!(backend.signer_bucket, "custom.obs.com");

    b.endpoint("http://obs.cn-north-4.myhuaweicloud.com");
    assert_eq!(b.build().unwrap().endpoint, "http://bkt.obs.cn-north-4.myhuaweicloud.com");

    b.endpoint("ht tp://bad");
    assert_eq!(b.build().unwrap_err().kind(), ErrorKind::BackendConfigInvalid);
}

#[test]
fn obs_statuses() {
    assert!(obs::put_reply(201).is_ok());
    assert!(obs::put_reply(200).is_ok());
    assert_eq!(obs::put_reply(403).unwrap_err().kind(), ErrorKind::ObjectPermissionDenied);
    for s in [204, 202, 404] {
        assert!(obs::delete_reply(s).is_ok());
    }
    assert!(obs::delete_reply(201).is_err());
}

#[test]
fn ftp_listing_entries() {
    let mut rd = ftp::ReadDir::new(vec!["a".to_string(), "b".to_string()]);
    assert_eq!(rd.next_line().as_deref(), Some("a"));
    assert_eq!(rd.next_line().as_deref(), Some("b"));
    assert_eq!(rd.next_line(), None);
    let f = ftp::FtpFile { name: "sub".to_string(), kind: ftp::FtpKind::Directory, size: 0, modified: None };
    let e = ftp::entry_of_file("dir/", &f);
    assert_eq!(e.path(), "dir/sub/");
    assert_eq!(e.mode(), ObjectMode::DIR);
    let f = ftp::FtpFile { name: "f.txt".to_string(), kind: ftp::FtpKind::File, size: 9, modified: Some(5) };
    let e = ftp::entry_of_file("dir/", &f);
    assert_eq!(e.path(), "dir/f.txt");
    assert_eq!(e.metadata().content_length(), 9);
    assert!(e.metadata().is_complete());
}

#[test]
fn seek_from_is_plain() {
    assert_eq!(SeekFrom::Start(3), SeekFrom::Start(3));
}

#[test]
fn obs_delete_accepts_ok() {
    assert!(obs::delete_reply(200).is_ok());
}

#[test]
fn builders_say_which_service_is_misconfigured() {
    let e = http::Builder::default().build().unwrap_err();
    assert_eq!(e.context, vec![("service".to_string(), "http".to_string())]);
    let e = obs::Builder::default().build().unwrap_err();
    assert_eq!(e.context, vec![("service".to_string(), "obs".to_string())]);
}

#[test]
fn ghac_create_requests() {
    let b = ghac_backend(true);
    let r = b.reserve_request("x", 1);
    assert_eq!(r.url, "https://cache/_apis/artifactcache/caches");
    assert_eq!(r.key, "cache/x");
    assert_eq!(r.version, "v1");
    assert_eq!(r.cache_size, 1);
    assert_eq!(r.authorization, "Bearer token");
    assert_eq!(r.accept, "application/json;api-version=6.0-preview.1");
    let u = b.upload_request(7, 1);
    assert_eq!(u.url, "https://cache/_apis/artifactcache/caches/7");
    assert_eq!(u.content_length, 1);
    assert_eq!(u.content_range, "bytes 0-0/*");
    assert_eq!(ghac::simulated_body(), vec![0u8]);
    let c = b.commit_request(-12, 1);
    assert_eq!(c.url, "https://cache/_apis/artifactcache/caches/-12");
    assert_eq!(c.size, 1);
}

#[test]
fn ftp_pages_from_listing_lines() {
    let lines = vec![
        "-rw-r--r-- 1 user group 1234 Nov 5 2019 readme.txt".to_string(),
        "drwxr-xr-x 1 user group 512 Nov 5 2019 docs".to_string(),
    ];
    let mut ds = ftp::DirStream::new("dir/", ftp::ReadDir::new(lines));
    let page = ds.next_page().unwrap().unwrap();
    assert_eq!(page.len(), 2);
    assert_eq!(page[0].path(), "dir/readme.txt");
    assert_eq!(page[0].mode(), ObjectMode::FILE);
    assert_eq!(page[0].metadata().content_length(), 1234);
    assert_eq!(page[1].path(), "dir/docs/");
    assert_eq!(page[1].mode(), ObjectMode::DIR);
    assert!(ds.next_page().unwrap().is_none());
    let mut bad = ftp::DirStream::new("dir/", ftp::ReadDir::new(vec!["not a listing".to_string()]));
    assert_eq!(bad.next_page().unwrap_err().kind(), ErrorKind::Unexpected);
}

#[test]
fn fs_list_entries() {
    let e = fs::list_entry("/", "sub", true, false).unwrap();
    assert_eq!(e.path(), "sub/");
    assert_eq!(e.mode(), ObjectMode::DIR);
    let e = fs::list_entry("a/", "f", false, true).unwrap();
    assert_eq!(e.path(), "a/f");
    assert_eq!(e.mode(), ObjectMode::FILE);
    assert_eq!(fs::list_entry("a/", "p", false, false).unwrap().mode(), ObjectMode::Unknown);
    assert!(fs::list_entry("a/", "", false, true).is_none());
}

#[test]
fn builders_take_options_from_pairs() {
    let kv = |pairs: &[(&str, &str)]| pairs.iter().map(|(k, v)| (k.to_string(), v.to_string())).collect::<Vec<_>>();
    let b = http::Builder::from_iter(kv(&[("endpoint", "https://a"), ("root", "r"), ("x", "y")]));
    assert_eq!(b.endpoint.as_deref(), Some("https://a"));
    assert_eq!(b.root.as_deref(), Some("r"));
    let b = ghac::Builder::from_iter(kv(&[("version", "v"), ("enable_create_simulation", ""), ("root", "")]));
    assert_eq!(b.version.as_deref(), Some("v"));
    assert!(!b.enable_create_simulation);
    assert_eq!(b.root, None);
    let b = ghac::Builder::from_iter(kv(&[("enable_create_simulation", "on")]));
    assert!(b.enable_create_simulation);
    let b = obs::Builder::from_iter(kv(&[
        ("bucket", "bkt"),
        ("endpoint", "https://e//"),
        ("access_key_id", "ak"),
        ("secret_access_key", "sk"),
        ("root", "/r"),
        ("bucket", ""),
    ]));
    assert_eq!(b.bucket.as_deref(), Some("bkt"));
    assert_eq!(b.endpoint.as_deref(), Some("https://e"));
    assert_eq!(b.access_key_id.as_deref(), Some("ak"));
    assert_eq!(b.secret_access_key.as_deref(), Some("sk"));
    assert_eq!(b.root.as_deref(), Some("/r"));
}

#[test]
fn ftp_pages_are_bounded_by_size() {
    let line = "-rw-r--r-- 1 user group 1 Nov 5 2019 f".to_string();
    let mut ds = ftp::DirStream::new("", ftp::ReadDir::new(vec![line; 300]));
    assert_eq!(ds.next_page().unwrap().unwrap().len(), 256);
    assert_eq!(ds.next_page().unwrap().unwrap().len(), 44);
    assert!(ds.next_page().unwrap().is_none());
}
