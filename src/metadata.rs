//! Object metadata and the self-description of an accessor.

use vstd::prelude::*;
use crate::range::BytesContentRange;
use crate::text::{ends_in_slash, ends_with_slash};

verus! {

/// What kind of object a path names.
#[derive(Clone, Copy, Debug, PartialEq, Eq, Structural)]
pub enum ObjectMode {
    /// A file.
    FILE,
    /// A directory.
    DIR,
    /// Neither, or not known.
    Unknown,
}

impl ObjectMode {
    /// Whether this is a file.
    pub fn is_file(self) -> (r: bool)
        ensures
            r == (self == ObjectMode::FILE),
    {
        matches!(self, ObjectMode::FILE)
    }

    /// Whether this is a directory.
    pub fn is_dir(self) -> (r: bool)
        ensures
            r == (self == ObjectMode::DIR),
    {
        matches!(self, ObjectMode::DIR)
    }
}

/// The mode that a path's trailing form gives: a directory when it ends in `/`.
pub open spec fn mode_of_path(p: Seq<char>) -> ObjectMode {
    if ends_in_slash(p) { ObjectMode::DIR } else { ObjectMode::FILE }
}

/// The mode a path's trailing form gives.
pub fn mode_for_path(path: &str) -> (r: ObjectMode)
    ensures
        r == mode_of_path(path@),
{
    if ends_with_slash(path) { ObjectMode::DIR } else { ObjectMode::FILE }
}

/// The attributes of one object.
#[derive(Debug)]
pub struct ObjectMetadata {
    pub mode: ObjectMode,
    /// Set when no further fetch is needed to know the rest.
    pub complete: bool,
    pub content_length: Option<u64>,
    pub content_md5: Option<String>,
    pub content_type: Option<String>,
    pub content_range: Option<BytesContentRange>,
    pub etag: Option<String>,
    /// Seconds since the Unix epoch.
    pub last_modified: Option<i64>,
}

impl ObjectMetadata {
    /// Metadata of the given mode with nothing else known.
    pub fn new(mode: ObjectMode) -> (r: ObjectMetadata)
        ensures
            r.mode == mode,
            !r.complete,
            r.content_length is None,
            r.content_md5 is None,
            r.content_type is None,
            r.content_range is None,
            r.etag is None,
            r.last_modified is None,
    {
        ObjectMetadata {
            mode,
            complete: false,
            content_length: None,
            content_md5: None,
            content_type: None,
            content_range: None,
            etag: None,
            last_modified: None,
        }
    }

    /// The object's mode.
    pub fn mode(&self) -> (r: ObjectMode)
        ensures
            r == self.mode,
    {
        self.mode
    }

    /// Whether no further fetch is needed.
    pub fn is_complete(&self) -> (r: bool)
        ensures
            r == self.complete,
    {
        self.complete
    }

    /// Marks the metadata complete.
    pub fn with_complete(self) -> (r: ObjectMetadata)
        ensures
            r == (ObjectMetadata { complete: true, ..self }),
    {
        ObjectMetadata { complete: true, ..self }
    }

    /// The content length, `0` when unknown.
    pub fn content_length(&self) -> (r: u64)
        ensures
            r == match self.content_length {
                Some(n) => n,
                None => 0,
            },
    {
        match self.content_length {
            Some(n) => n,
            None => 0,
        }
    }

    /// The content length as it was recorded, if it was.
    pub fn content_length_raw(&self) -> (r: Option<u64>)
        ensures
            r == self.content_length,
    {
        self.content_length
    }

    /// Records the content length.
    pub fn set_content_length(&mut self, n: u64)
        ensures
            *final(self) == (ObjectMetadata { content_length: Some(n), ..*old(self) }),
    {
        self.content_length = Some(n);
    }

    /// Records the content length.
    pub fn with_content_length(self, n: u64) -> (r: ObjectMetadata)
        ensures
            r == (ObjectMetadata { content_length: Some(n), ..self }),
    {
        ObjectMetadata { content_length: Some(n), ..self }
    }

    /// Records the content type.
    pub fn set_content_type(&mut self, v: &str)
        ensures
            final(self).content_type matches Some(t) && t@ == v@,
            final(self).mode == old(self).mode,
            final(self).complete == old(self).complete,
            final(self).content_length == old(self).content_length,
            final(self).content_md5 == old(self).content_md5,
            final(self).content_range == old(self).content_range,
            final(self).etag == old(self).etag,
            final(self).last_modified == old(self).last_modified,
    {
        self.content_type = Some(String::from_str(v));
    }

    /// Records the content MD5.
    pub fn set_content_md5(&mut self, v: &str)
        ensures
            final(self).content_md5 matches Some(t) && t@ == v@,
            final(self).mode == old(self).mode,
            final(self).complete == old(self).complete,
            final(self).content_length == old(self).content_length,
            final(self).content_type == old(self).content_type,
            final(self).content_range == old(self).content_range,
            final(self).etag == old(self).etag,
            final(self).last_modified == old(self).last_modified,
    {
        self.content_md5 = Some(String::from_str(v));
    }

    /// Records the entity tag.
    pub fn set_etag(&mut self, v: &str)
        ensures
            final(self).etag matches Some(t) && t@ == v@,
            final(self).mode == old(self).mode,
            final(self).complete == old(self).complete,
            final(self).content_length == old(self).content_length,
            final(self).content_type == old(self).content_type,
            final(self).content_md5 == old(self).content_md5,
            final(self).content_range == old(self).content_range,
            final(self).last_modified == old(self).last_modified,
    {
        self.etag = Some(String::from_str(v));
    }

    /// Records the content range.
    pub fn set_content_range(&mut self, v: BytesContentRange)
        ensures
            *final(self) == (ObjectMetadata { content_range: Some(v), ..*old(self) }),
    {
        self.content_range = Some(v);
    }

    /// Records the last-modified time, in seconds since the Unix epoch.
    pub fn set_last_modified(&mut self, t: i64)
        ensures
            *final(self) == (ObjectMetadata { last_modified: Some(t), ..*old(self) }),
    {
        self.last_modified = Some(t);
    }

    /// Records the last-modified time, in seconds since the Unix epoch.
    pub fn with_last_modified(self, t: i64) -> (r: ObjectMetadata)
        ensures
            r == (ObjectMetadata { last_modified: Some(t), ..self }),
    {
        ObjectMetadata { last_modified: Some(t), ..self }
    }
}

/// The storage service behind an accessor.
#[derive(Clone, Copy, Debug, PartialEq, Eq, Structural)]
pub enum Scheme {
    Fs,
    Ftp,
    Ghac,
    Hdfs,
    Http,
    Obs,
}

/// The name of a scheme, as logs and metric labels carry it.
pub open spec fn scheme_name(s: Scheme) -> Seq<char> {
    match s {
        Scheme::Fs => "fs"@,
        Scheme::Ftp => "ftp"@,
        Scheme::Ghac => "ghac"@,
        Scheme::Hdfs => "hdfs"@,
        Scheme::Http => "http"@,
        Scheme::Obs => "obs"@,
    }
}

impl Scheme {
    /// The scheme's name.
    pub fn into_static(self) -> (r: &'static str)
        ensures
            r@ == scheme_name(self),
    {
        match self {
            Scheme::Fs => "fs",
            Scheme::Ftp => "ftp",
            Scheme::Ghac => "ghac",
            Scheme::Hdfs => "hdfs",
            Scheme::Http => "http",
            Scheme::Obs => "obs",
        }
    }
}

/// The operations an accessor offers.
#[derive(Clone, Copy, Debug, PartialEq, Eq, Structural)]
pub struct Capabilities {
    pub read: bool,
    pub write: bool,
    pub list: bool,
    pub presign: bool,
    pub multipart: bool,
    pub blocking: bool,
}

/// Each capability that either side has.
pub open spec fn caps_union(a: Capabilities, b: Capabilities) -> Capabilities {
    Capabilities {
        read: a.read || b.read,
        write: a.write || b.write,
        list: a.list || b.list,
        presign: a.presign || b.presign,
        multipart: a.multipart || b.multipart,
        blocking: a.blocking || b.blocking,
    }
}

/// Every capability of `a` is one of `b`.
pub open spec fn caps_within(a: Capabilities, b: Capabilities) -> bool {
    (a.read ==> b.read) && (a.write ==> b.write) && (a.list ==> b.list) && (a.presign ==> b.presign)
        && (a.multipart ==> b.multipart) && (a.blocking ==> b.blocking)
}

impl Capabilities {
    /// No capability.
    pub fn none() -> (r: Capabilities)
        ensures
            !r.read && !r.write && !r.list && !r.presign && !r.multipart && !r.blocking,
    {
        Capabilities { read: false, write: false, list: false, presign: false, multipart: false, blocking: false }
    }

    /// The capabilities that either side has.
    pub fn union(self, other: Capabilities) -> (r: Capabilities)
        ensures
            r == caps_union(self, other),
    {
        Capabilities {
            read: self.read || other.read,
            write: self.write || other.write,
            list: self.list || other.list,
            presign: self.presign || other.presign,
            multipart: self.multipart || other.multipart,
            blocking: self.blocking || other.blocking,
        }
    }
}

/// How an accessor's readers behave.
#[derive(Clone, Copy, Debug, PartialEq, Eq, Structural)]
pub struct Hints {
    pub read_is_seekable: bool,
    pub read_is_streamable: bool,
}

/// An accessor's description of itself.
#[derive(Debug)]
pub struct AccessorMetadata {
    pub scheme: Scheme,
    pub root: String,
    pub name: String,
    pub capabilities: Capabilities,
    pub hints: Hints,
}

/// The mathematical form of an accessor's description.
pub struct AccessorInfo {
    pub scheme: Scheme,
    pub root: Seq<char>,
    pub name: Seq<char>,
    pub capabilities: Capabilities,
    pub hints: Hints,
}

impl View for AccessorMetadata {
    type V = AccessorInfo;

    open spec fn view(&self) -> AccessorInfo {
        AccessorInfo {
            scheme: self.scheme,
            root: self.root@,
            name: self.name@,
            capabilities: self.capabilities,
            hints: self.hints,
        }
    }
}

impl AccessorMetadata {
    /// A description with the given scheme, root, name, capabilities and hints.
    pub fn new(scheme: Scheme, root: &str, name: &str, capabilities: Capabilities, hints: Hints) -> (r: AccessorMetadata)
        ensures
            r@ == (AccessorInfo { scheme, root: root@, name: name@, capabilities, hints }),
    {
        AccessorMetadata {
            scheme,
            root: String::from_str(root),
            name: String::from_str(name),
            capabilities,
            hints,
        }
    }
}

} // verus!
