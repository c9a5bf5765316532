//! Listing entries: a path with the metadata that came with it.

use vstd::prelude::*;
use crate::error::Error;
use crate::metadata::{ObjectMetadata, ObjectMode};
use crate::text::ends_in_slash;

verus! {

/// One entry of a listing.
#[derive(Debug)]
pub struct ObjectEntry {
    pub path: String,
    pub meta: ObjectMetadata,
}

/// A path and a mode agree: the mode is a directory exactly when the path
/// ends in `/`.
pub open spec fn mode_matches_path(path: Seq<char>, mode: ObjectMode) -> bool {
    (mode == ObjectMode::DIR) == ends_in_slash(path)
}

impl ObjectEntry {
    /// The entry's path and mode agree.
    pub open spec fn wf(&self) -> bool {
        mode_matches_path(self.path@, self.meta.mode)
    }

    /// An entry from a borrowed path.
    pub fn new(path: &str, meta: ObjectMetadata) -> (r: ObjectEntry)
        requires
            mode_matches_path(path@, meta.mode),
        ensures
            r.path@ == path@,
            r.meta == meta,
            r.wf(),
    {
        ObjectEntry::with(String::from_str(path), meta)
    }

    /// An entry from an owned path.
    pub fn with(path: String, meta: ObjectMetadata) -> (r: ObjectEntry)
        requires
            mode_matches_path(path@, meta.mode),
        ensures
            r.path == path,
            r.meta == meta,
            r.wf(),
    {
        ObjectEntry { path, meta }
    }

    /// Replaces the path; the new path keeps the trailing form the mode asks for.
    pub fn set_path(&mut self, path: &str) -> (r: &mut Self)
        requires
            mode_matches_path(path@, old(self).meta.mode),
        ensures
            r.path@ == path@,
            r.meta == old(self).meta,
            r.wf(),
            *final(self) == *final(r),
    {
        self.path = String::from_str(path);
        self
    }

    /// The entry's path.
    pub fn path(&self) -> (r: &str)
        ensures
            r@ == self.path@,
    {
        self.path.as_str()
    }

    /// The entry's mode.
    pub fn mode(&self) -> (r: ObjectMode)
        ensures
            r == self.meta.mode,
    {
        self.meta.mode
    }

    /// The entry's metadata.
    pub fn metadata(&self) -> (r: &ObjectMetadata)
        ensures
            *r == self.meta,
    {
        &self.meta
    }
}

/// A producer of listing pages. `Ok(None)` ends the listing; a page may be empty.
pub trait ObjectPage {
    /// The next page of entries; each one's path and mode agree.
    fn next_page(&mut self) -> (r: Result<Option<Vec<ObjectEntry>>, Error>)
        ensures
            r matches Ok(Some(page)) ==> forall|i: int| 0 <= i < page@.len() ==> (#[trigger] page@[i]).wf();
}

} // verus!
