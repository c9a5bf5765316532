use opendal::layers::logging::{Level, LoggingAccessor, LoggingPager, LoggingReader, Outcome};
use opendal::layers::metrics::{MetricReader, MetricsAccessor};
use opendal::operation::Operation;
use opendal::services::http;
use opendal::{Accessor, Error, ErrorKind, Layer, LoggingLayer, MetricsLayer, ObjectEntry, ObjectMetadata, ObjectMode, Operator};

fn http_backend() -> http::Backend {
    let mut b = http::Builder::new();
    b.endpoint("https://example.com");
    b.build().unwrap()
}

#[test]
fn logging_layer_levels() {
    let l = LoggingLayer::new();
    assert_eq!(l.error_level, Some(Level::Warn));
    assert_eq!(l.failure_level, Some(Level::Error));
    let l = l.with_error_level(None).with_failure_level(Some(Level::Info));
    assert_eq!(l.error_level, None);
    assert_eq!(l.failure_level, Some(Level::Info));
}

#[test]
fn logging_classifies_errors_and_keeps_replies() {
    let acc: LoggingAccessor<http::Backend> = LoggingLayer::new().layer(http_backend());
    let (r, o) = acc.observe::<u64>(Ok(7));
    assert_eq!(r.unwrap(), 7);
    assert_eq!(o, Outcome::Finished);
    let (r, o) = acc.observe::<u64>(Err(Error::new(ErrorKind::ObjectNotFound, "gone")));
    assert_eq!(r.unwrap_err().kind(), ErrorKind::ObjectNotFound);
    assert_eq!(o, Outcome::Errored(Some(Level::Warn)));
    let e = Error::new(ErrorKind::Unexpected, "boom");
    assert_eq!(acc.err_status(&e), "failed");
    assert_eq!(acc.err_level(&e), Some(Level::Error));
    let (_, o) = acc.observe::<u64>(Err(e));
    assert_eq!(o, Outcome::Failed(Some(Level::Error)));
    assert_eq!(acc.err_status(&Error::new(ErrorKind::ObjectNotFound, "x")), "errored");
}

#[test]
fn logging_reader_passes_bytes_unchanged() {
    let mut r = LoggingReader::new(Some(6), None);
    assert_eq!(r.pass_chunk(b"abc".to_vec()), b"abc".to_vec());
    assert!(!r.consumed_fully());
    assert_eq!(r.pass_count(3), 3);
    assert_eq!(r.has_read, 6);
    assert!(r.consumed_fully());
}

#[test]
fn logging_pager_marks_the_end() {
    let mut p = LoggingPager::new(None, None);
    let e = ObjectEntry::new("a", ObjectMetadata::new(ObjectMode::FILE));
    let (page, _) = p.observe_page(Ok(Some(vec![e])));
    assert_eq!(page.unwrap().unwrap()[0].path(), "a");
    assert!(!p.finished);
    let (page, _) = p.observe_page(Ok(None));
    assert!(page.unwrap().is_none());
    assert!(p.finished);
}

#[test]
fn layers_keep_the_inner_description() {
    let op = Operator::new(http_backend()).layer(&LoggingLayer::new()).layer(&MetricsLayer);
    let m = op.metadata();
    let inner = http_backend().metadata();
    assert_eq!(m.root, inner.root);
    assert_eq!(m.capabilities, inner.capabilities);
    assert_eq!(m.hints, inner.hints);
}

#[test]
fn metrics_labels_and_counts() {
    let acc: MetricsAccessor<http::Backend> = MetricsLayer.layer(http_backend());
    let labels = acc.error_labels(Operation::BlockingRead, ErrorKind::ObjectNotFound);
    assert_eq!(labels.service, "http");
    assert_eq!(MetricsLayer.layer(http_backend()).service, opendal::Scheme::Http);
    assert_eq!(labels.operation, "blocking_read");
    assert_eq!(labels.error_kind, "ObjectNotFound");
    let (_, k) = acc.observe::<()>(Err(Error::new(ErrorKind::Unsupported, "no")));
    assert_eq!(k, Some(ErrorKind::Unsupported));
    let mut r = MetricReader::new();
    assert_eq!(r.pass_read(Ok(5)).unwrap(), 5);
    assert!(r.pass_read(Err(Error::new(ErrorKind::Unexpected, "x"))).is_err());
    assert_eq!((r.bytes, r.errors), (5, 1));
}

#[test]
fn entries_keep_mode_and_path_in_step() {
    let mut e = ObjectEntry::new("dir/", ObjectMetadata::new(ObjectMode::DIR));
    e.set_path("other/").set_path("other/");
    assert_eq!(e.path(), "other/");
    let op = Operator::new(http_backend());
    let o = e.into_object(&op);
    assert_eq!(o.path, "other/");
    assert_eq!(o.meta.unwrap().mode(), ObjectMode::DIR);
    let o = op.object("a");
    assert!(o.meta.is_none());
}

#[test]
fn error_context_is_kept() {
    let e = Error::new(ErrorKind::Unexpected, "m").with_operation("op").with_context("k", "v").set_source("cause");
    assert_eq!(e.kind(), ErrorKind::Unexpected);
    assert_eq!(e.operation.as_deref(), Some("op"));
    assert_eq!(e.context, vec![("k".to_string(), "v".to_string())]);
    assert_eq!(e.source.as_deref(), Some("cause"));
    assert_eq!(ErrorKind::ObjectNotADirectory.into_static(), "ObjectNotADirectory");
}
