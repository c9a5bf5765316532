//! The logging layer: decides what each operation reports — started,
//! finished, errored for an expected error, failed for an unexpected one —
//! and at which level, and hands every reply through unchanged. Writing the
//! log lines is left to the host's sink.

use vstd::prelude::*;
use crate::accessor::{Accessor, Layer};
use crate::entry::ObjectEntry;
use crate::error::{Error, ErrorKind};
use crate::metadata::{AccessorInfo, AccessorMetadata, Scheme};

verus! {

/// The level of a log line.
#[derive(Clone, Copy, Debug, PartialEq, Eq, Structural)]
pub enum Level {
    Error,
    Warn,
    Info,
    Debug,
    Trace,
}

/// Adds logging to an accessor.
#[derive(Clone, Copy, Debug, PartialEq, Eq, Structural)]
pub struct LoggingLayer {
    /// Level for expected errors such as not-found; `None` silences them.
    pub error_level: Option<Level>,
    /// Level for unexpected failures; `None` silences them.
    pub failure_level: Option<Level>,
}

impl LoggingLayer {
    /// Expected errors at warn, failures at error.
    pub fn new() -> (r: LoggingLayer)
        ensures
            r.error_level == Some(Level::Warn),
            r.failure_level == Some(Level::Error),
    {
        LoggingLayer { error_level: Some(Level::Warn), failure_level: Some(Level::Error) }
    }

    /// Sets the level for expected errors.
    pub fn with_error_level(self, level: Option<Level>) -> (r: LoggingLayer)
        ensures
            r == (LoggingLayer { error_level: level, ..self }),
    {
        LoggingLayer { error_level: level, ..self }
    }

    /// Sets the level for unexpected failures.
    pub fn with_failure_level(self, level: Option<Level>) -> (r: LoggingLayer)
        ensures
            r == (LoggingLayer { failure_level: level, ..self }),
    {
        LoggingLayer { failure_level: level, ..self }
    }
}

/// An accessor that reports each operation on `inner`.
#[derive(Debug)]
pub struct LoggingAccessor<A> {
    pub scheme: Scheme,
    pub inner: A,
    pub error_level: Option<Level>,
    pub failure_level: Option<Level>,
}

impl<A: Accessor> Layer<A> for LoggingLayer {
    type LayeredAccessor = LoggingAccessor<A>;

    fn layer(&self, inner: A) -> (r: LoggingAccessor<A>)
        ensures
            r.inner == inner,
            r.scheme == inner.spec_metadata().scheme,
            r.error_level == self.error_level,
            r.failure_level == self.failure_level,
    {
        let meta = inner.metadata();
        LoggingAccessor {
            scheme: meta.scheme,
            inner,
            error_level: self.error_level,
            failure_level: self.failure_level,
        }
    }
}

impl<A: Accessor> Accessor for LoggingAccessor<A> {
    /// Exactly the inner accessor's description.
    open spec fn spec_metadata(&self) -> AccessorInfo {
        self.inner.spec_metadata()
    }

    fn metadata(&self) -> (r: AccessorMetadata) {
        self.inner.metadata()
    }
}

/// Logging does not change what an accessor says of itself; as the inner
/// accessor may itself be layered, this holds through any number of layers.
pub proof fn lemma_logging_keeps_metadata<A: Accessor>(acc: &LoggingAccessor<A>)
    ensures
        acc.spec_metadata() == acc.inner.spec_metadata(),
{
}

/// How an error is reported: `failed` when unexpected, `errored` otherwise.
pub open spec fn error_status(kind: ErrorKind) -> Seq<char> {
    if kind == ErrorKind::Unexpected { "failed"@ } else { "errored"@ }
}

/// What the log says of one finished operation.
#[derive(Clone, Copy, Debug, PartialEq, Eq, Structural)]
pub enum Outcome {
    /// The operation succeeded; reported at debug.
    Finished,
    /// The operation failed with an expected error, reported at the level if any.
    Errored(Option<Level>),
    /// The operation failed unexpectedly, reported at the level if any.
    Failed(Option<Level>),
}

impl<A> LoggingAccessor<A> {
    /// How an error is reported.
    pub fn err_status(&self, err: &Error) -> (r: &'static str)
        ensures
            r@ == error_status(err.kind),
    {
        if matches!(err.kind, ErrorKind::Unexpected) { "failed" } else { "errored" }
    }

    /// The level an error is reported at, if at all.
    pub fn err_level(&self, err: &Error) -> (r: Option<Level>)
        ensures
            r == if err.kind == ErrorKind::Unexpected { self.failure_level } else { self.error_level },
    {
        if matches!(err.kind, ErrorKind::Unexpected) { self.failure_level } else { self.error_level }
    }

    /// Observes an operation's reply: the reply goes back unchanged, with
    /// what the log says of it.
    pub fn observe<T>(&self, reply: Result<T, Error>) -> (r: (Result<T, Error>, Outcome))
        ensures
            r.0 == reply,
            reply is Ok ==> r.1 == Outcome::Finished,
            reply matches Err(e) ==> r.1 == if e.kind == ErrorKind::Unexpected {
                Outcome::Failed(self.failure_level)
            } else {
                Outcome::Errored(self.error_level)
            },
    {
        let outcome = match &reply {
            Ok(_) => Outcome::Finished,
            Err(e) => if matches!(e.kind, ErrorKind::Unexpected) {
                Outcome::Failed(self.failure_level)
            } else {
                Outcome::Errored(self.error_level)
            },
        };
        (reply, outcome)
    }
}

/// Counts the bytes that pass through a reader or writer body, to report
/// whether it was consumed fully when dropped.
#[derive(Debug)]
pub struct LoggingReader {
    /// The bytes expected, when known.
    pub size: Option<u64>,
    /// The bytes handed through so far.
    pub has_read: u64,
    pub failure_level: Option<Level>,
}

impl LoggingReader {
    /// A counter expecting `size` bytes, with none read.
    pub fn new(size: Option<u64>, failure_level: Option<Level>) -> (r: LoggingReader)
        ensures
            r.size == size,
            r.has_read == 0,
            r.failure_level == failure_level,
    {
        LoggingReader { size, has_read: 0, failure_level }
    }

    /// Hands a chunk through, counting its bytes; the chunk is not altered.
    pub fn pass_chunk(&mut self, chunk: Vec<u8>) -> (r: Vec<u8>)
        requires
            old(self).has_read + chunk@.len() <= u64::MAX,
        ensures
            r == chunk,
            final(self).has_read == old(self).has_read + chunk@.len(),
            final(self).size == old(self).size,
            final(self).failure_level == old(self).failure_level,
    {
        self.has_read = self.has_read + chunk.len() as u64;
        chunk
    }

    /// Counts a read of `n` bytes into the caller's buffer; the count is handed back unchanged.
    pub fn pass_count(&mut self, n: usize) -> (r: usize)
        requires
            old(self).has_read + n <= u64::MAX,
        ensures
            r == n,
            final(self).has_read == old(self).has_read + n,
            final(self).size == old(self).size,
            final(self).failure_level == old(self).failure_level,
    {
        self.has_read = self.has_read + n as u64;
        n
    }

    /// Whether the reader was consumed fully: the bytes expected are known
    /// and all of them passed.
    pub fn consumed_fully(&self) -> (r: bool)
        ensures
            r == (self.size == Some(self.has_read)),
    {
        match self.size {
            Some(s) => s == self.has_read,
            None => false,
        }
    }
}

/// Watches a listing: whether it reached its end, and how each page is reported.
#[derive(Debug)]
pub struct LoggingPager {
    pub finished: bool,
    pub error_level: Option<Level>,
    pub failure_level: Option<Level>,
}

impl LoggingPager {
    /// A pager watcher that has seen nothing yet.
    pub fn new(error_level: Option<Level>, failure_level: Option<Level>) -> (r: LoggingPager)
        ensures
            !r.finished,
            r.error_level == error_level,
            r.failure_level == failure_level,
    {
        LoggingPager { finished: false, error_level, failure_level }
    }

    /// Observes one page: the page goes back unchanged; the end of the
    /// listing marks the pager finished.
    pub fn observe_page(&mut self, page: Result<Option<Vec<ObjectEntry>>, Error>) -> (r: (Result<Option<Vec<ObjectEntry>>, Error>, Outcome))
        ensures
            r.0 == page,
            final(self).finished == (old(self).finished || page matches Ok(None)),
            final(self).error_level == old(self).error_level,
            final(self).failure_level == old(self).failure_level,
            page is Ok ==> r.1 == Outcome::Finished,
            page matches Err(e) ==> r.1 == if e.kind == ErrorKind::Unexpected {
                Outcome::Failed(old(self).failure_level)
            } else {
                Outcome::Errored(old(self).error_level)
            },
    {
        let outcome = match &page {
            Ok(None) => {
                self.finished = true;
                Outcome::Finished
            },
            Ok(Some(_)) => Outcome::Finished,
            Err(e) => if matches!(e.kind, ErrorKind::Unexpected) {
                Outcome::Failed(self.failure_level)
            } else {
                Outcome::Errored(self.error_level)
            },
        };
        (page, outcome)
    }
}


impl Default for LoggingLayer {
    /// Expected errors at warn, failures at error.
    fn default() -> (r: LoggingLayer)
        ensures
            r.error_level == Some(Level::Warn),
            r.failure_level == Some(Level::Error),
    {
        LoggingLayer::new()
    }
}

} // verus!
