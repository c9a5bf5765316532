//! The metrics layer: counts requests, bytes and errors under the fixed label
//! set {service, operation, error kind}, and hands every reply through
//! unchanged. Publishing the counts is left to the host's recorder.

use vstd::prelude::*;
use crate::accessor::{Accessor, Layer};
use crate::error::{kind_label, Error, ErrorKind};
use crate::metadata::{scheme_name, AccessorInfo, AccessorMetadata, Scheme};
use crate::operation::{operation_name, Operation};

verus! {

/// Adds metrics to an accessor.
#[derive(Clone, Copy, Debug, PartialEq, Eq, Structural)]
pub struct MetricsLayer;

/// An accessor that counts the operations on `inner`.
#[derive(Debug)]
pub struct MetricsAccessor<A> {
    pub inner: A,
    pub service: Scheme,
}

impl<A: Accessor> Layer<A> for MetricsLayer {
    type LayeredAccessor = MetricsAccessor<A>;

    fn layer(&self, inner: A) -> (r: MetricsAccessor<A>)
        ensures
            r.inner == inner,
            r.service == inner.spec_metadata().scheme,
    {
        let meta = inner.metadata();
        MetricsAccessor { inner, service: meta.scheme }
    }
}

impl<A: Accessor> Accessor for MetricsAccessor<A> {
    /// Exactly the inner accessor's description.
    open spec fn spec_metadata(&self) -> AccessorInfo {
        self.inner.spec_metadata()
    }

    fn metadata(&self) -> (r: AccessorMetadata) {
        self.inner.metadata()
    }
}

/// The labels of one error count: service, operation, error kind.
pub struct ErrorLabels {
    pub service: &'static str,
    pub operation: &'static str,
    pub error_kind: &'static str,
}

impl<A> MetricsAccessor<A> {
    /// The labels under which an error of `kind` in `op` is counted.
    pub fn error_labels(&self, op: Operation, kind: ErrorKind) -> (r: ErrorLabels)
        ensures
            r.service@ == scheme_name(self.service),
            r.operation@ == operation_name(op),
            r.error_kind@ == kind_label(kind),
    {
        ErrorLabels { service: self.service.into_static(), operation: op.into_static(), error_kind: kind.into_static() }
    }

    /// Observes a reply: it goes back unchanged, with the kind of error to
    /// count if it failed.
    pub fn observe<T>(&self, reply: Result<T, Error>) -> (r: (Result<T, Error>, Option<ErrorKind>))
        ensures
            r.0 == reply,
            reply is Ok ==> r.1 is None,
            reply matches Err(e) ==> r.1 == Some(e.kind),
    {
        let kind = match &reply {
            Ok(_) => None,
            Err(e) => Some(e.kind),
        };
        (reply, kind)
    }
}

/// Counts the bytes that pass through a reader.
#[derive(Debug)]
pub struct MetricReader {
    pub bytes: u64,
    pub errors: u64,
}

impl MetricReader {
    /// A reader count with nothing passed.
    pub fn new() -> (r: MetricReader)
        ensures
            r.bytes == 0,
            r.errors == 0,
    {
        MetricReader { bytes: 0, errors: 0 }
    }

    /// Hands a read's result through, counting its bytes or its error.
    pub fn pass_read(&mut self, res: Result<usize, Error>) -> (r: Result<usize, Error>)
        requires
            match res {
                Ok(n) => old(self).bytes + n <= u64::MAX,
                Err(_) => old(self).errors < u64::MAX,
            },
        ensures
            r == res,
            res matches Ok(n) ==> final(self).bytes == old(self).bytes + n && final(self).errors == old(self).errors,
            res is Err ==> final(self).bytes == old(self).bytes && final(self).errors == old(self).errors + 1,
    {
        match &res {
            Ok(n) => self.bytes = self.bytes + *n as u64,
            Err(_) => self.errors = self.errors + 1,
        }
        res
    }
}

} // verus!
