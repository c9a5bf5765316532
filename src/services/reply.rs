//! Mapping of HTTP reply statuses onto the error taxonomy, shared by the
//! HTTP-based backends.

use vstd::prelude::*;
use crate::error::{Error, ErrorKind};
use crate::metadata::{ObjectMetadata, ObjectMode};

verus! {

/// The error kind a failing status stands for.
pub open spec fn status_kind(status: u16) -> ErrorKind {
    if status == 404 {
        ErrorKind::ObjectNotFound
    } else if status == 403 {
        ErrorKind::ObjectPermissionDenied
    } else {
        ErrorKind::Unexpected
    }
}

/// The error for a reply with an unexpected status.
pub fn error_from_status(status: u16) -> (r: Error)
    ensures
        r.kind == status_kind(status),
{
    let kind = if status == 404 {
        ErrorKind::ObjectNotFound
    } else if status == 403 {
        ErrorKind::ObjectPermissionDenied
    } else {
        ErrorKind::Unexpected
    };
    Error::new(kind, "unexpected status")
}

/// Whether a status is a success (2xx).
pub open spec fn is_success(status: u16) -> bool {
    200 <= status < 300
}

/// Metadata of a directory, with nothing else known.
pub fn dir_metadata() -> (r: ObjectMetadata)
    ensures
        r.mode == ObjectMode::DIR,
        r.content_length is None,
{
    ObjectMetadata::new(ObjectMode::DIR)
}

} // verus!
