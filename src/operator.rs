//! The user-facing handle: an accessor with its layers, and the object
//! handles it gives out.

use vstd::prelude::*;
use crate::accessor::{Accessor, Layer};
use crate::entry::ObjectEntry;
use crate::error::{Error, ErrorKind};
use crate::metadata::{caps_within, AccessorMetadata, Hints, ObjectMetadata};
use crate::text::owned;

verus! {

/// An accessor, with whatever layers were put over it.
#[derive(Debug)]
pub struct Operator<A> {
    pub accessor: A,
}

impl<A: Accessor> Operator<A> {
    /// An operator over `accessor`.
    pub fn new(accessor: A) -> (r: Operator<A>)
        ensures
            r.accessor == accessor,
    {
        Operator { accessor }
    }

    /// The operator whose accessor is `layer` put over this one's.
    pub fn layer<L: Layer<A>>(self, layer: &L) -> (r: Operator<L::LayeredAccessor>)
        ensures
            caps_within(self.accessor.spec_metadata().capabilities, r.accessor.spec_metadata().capabilities),
    {
        Operator { accessor: layer.layer(self.accessor) }
    }

    /// The accessor's description.
    pub fn metadata(&self) -> (r: AccessorMetadata)
        ensures
            r@ == self.accessor.spec_metadata(),
    {
        self.accessor.metadata()
    }

    /// A handle on the object at `path`, with no metadata cached.
    pub fn object<'a>(&'a self, path: &str) -> (r: Object<'a, A>)
        ensures
            r.op == self,
            r.path@ == path@,
            r.meta is None,
    {
        Object { op: self, path: owned(path), meta: None }
    }
}

/// A handle on one path of one operator, with the metadata learnt so far.
#[derive(Debug)]
pub struct Object<'a, A> {
    pub op: &'a Operator<A>,
    pub path: String,
    pub meta: Option<ObjectMetadata>,
}

impl ObjectEntry {
    /// The entry as an object handle of `op`, its metadata cached.
    pub fn into_object<'a, A>(self, op: &'a Operator<A>) -> (r: Object<'a, A>)
        ensures
            r.op == op,
            r.path == self.path,
            r.meta == Some(self.meta),
    {
        Object { op, path: self.path, meta: Some(self.meta) }
    }
}

} // verus!

verus! {

/// How a blocking reader is made from what the accessor's readers can do.
#[derive(Clone, Copy, Debug, PartialEq, Eq, Structural)]
pub enum ReaderPlan {
    /// Use the accessor's reader as it is.
    Direct,
    /// Wrap the reader so that it also yields chunks of this many bytes.
    Chunked(usize),
}

/// The chunk size used when the accessor's reader cannot stream.
pub const BLOCKING_CHUNK_SIZE: usize = 262144;

/// The public blocking reader of an object: how it was made from the
/// accessor's reader.
#[derive(Debug)]
pub struct BlockingObjectReader {
    pub plan: ReaderPlan,
}

impl BlockingObjectReader {
    /// Decides how to read an object of an accessor with the given hints:
    /// only seekable readers can be read in blocking mode; a reader that
    /// cannot stream is given chunks of 256 KiB.
    pub fn create(hints: Hints) -> (r: Result<BlockingObjectReader, Error>)
        ensures
            !hints.read_is_seekable ==> (r matches Err(e) && e.kind == ErrorKind::Unsupported),
            hints.read_is_seekable && hints.read_is_streamable ==> (r matches Ok(b) && b.plan == ReaderPlan::Direct),
            hints.read_is_seekable && !hints.read_is_streamable
                ==> (r matches Ok(b) && b.plan == ReaderPlan::Chunked(BLOCKING_CHUNK_SIZE)),
    {
        if !hints.read_is_seekable {
            return Err(Error::new(ErrorKind::Unsupported, "non seekable blocking reader is not supported"));
        }
        if hints.read_is_streamable {
            Ok(BlockingObjectReader { plan: ReaderPlan::Direct })
        } else {
            Ok(BlockingObjectReader { plan: ReaderPlan::Chunked(BLOCKING_CHUNK_SIZE) })
        }
    }
}

} // verus!
