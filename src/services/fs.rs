//! The local filesystem backend.

use vstd::prelude::*;
use crate::accessor::Accessor;
use crate::error::{Error, ErrorKind};
use crate::entry::ObjectEntry;
use crate::layers::immutable_index::query_prefix;
use crate::metadata::{ObjectMetadata, AccessorInfo, AccessorMetadata, Capabilities, Hints, ObjectMode, Scheme};
use crate::path::{basename, get_basename, normal_root, normalize_root};
use crate::range::{resolved, BytesRange};
use crate::text::{chars_of, ends_in_slash, ends_with_slash, push_chars, same_text, string_from_chars};

verus! {

/// The value a builder keeps for an option: nothing for the empty string.
pub open spec fn option_value(v: Seq<char>) -> Option<Seq<char>> {
    if v.len() == 0 { None } else { Some(v) }
}

/// The view of an optional string.
pub open spec fn opt_view(v: Option<String>) -> Option<Seq<char>> {
    match v {
        Some(s) => Some(s@),
        None => None,
    }
}

/// Builder of the filesystem backend.
#[derive(Debug)]
pub struct Builder {
    pub root: Option<String>,
    pub atomic_write_dir: Option<String>,
}

/// The optional owned copy of `v`, absent for the empty string.
pub fn non_empty(v: &str) -> (r: Option<String>)
    ensures
        opt_view(r) == option_value(v@),
{
    if v.unicode_len() == 0 { None } else { Some(String::from_str(v)) }
}

impl Builder {
    /// A builder with nothing set.
    pub fn new() -> (r: Builder)
        ensures
            r.root is None,
            r.atomic_write_dir is None,
    {
        Builder { root: None, atomic_write_dir: None }
    }

    /// Sets the root; the empty string unsets it.
    pub fn root(&mut self, root: &str) -> (r: &mut Self)
        ensures
            opt_view(r.root) == option_value(root@),
            r.atomic_write_dir == old(self).atomic_write_dir,
            *final(self) == *final(r),
    {
        self.root = non_empty(root);
        self
    }

    /// Sets the scratch directory for atomic writes; the empty string unsets it.
    pub fn atomic_write_dir(&mut self, dir: &str) -> (r: &mut Self)
        ensures
            opt_view(r.atomic_write_dir) == option_value(dir@),
            r.root == old(self).root,
            *final(self) == *final(r),
    {
        self.atomic_write_dir = non_empty(dir);
        self
    }

    /// Takes the options `root` and `atomic_write_dir` from key/value pairs;
    /// other keys are ignored and a later pair wins over an earlier one.
    pub fn from_iter(it: Vec<(String, String)>) -> (r: Builder)
        ensures
            opt_view(r.root) == last_option(it@, "root"@, it@.len() as int),
            opt_view(r.atomic_write_dir) == last_option(it@, "atomic_write_dir"@, it@.len() as int),
    {
        proof {
            reveal_strlit("root");
            reveal_strlit("atomic_write_dir");
            assert("root"@.len() != "atomic_write_dir"@.len());
        }
        let mut b = Builder::new();
        let mut i: usize = 0;
        while i < it.len()
            invariant
                i <= it@.len(),
                "root"@ != "atomic_write_dir"@,
                opt_view(b.root) == last_option(it@, "root"@, i as int),
                opt_view(b.atomic_write_dir) == last_option(it@, "atomic_write_dir"@, i as int),
            decreases it@.len() - i,
        {
            let (k, v) = (&it[i].0, &it[i].1);
            if same_text(k.as_str(), "root") {
                b.root(v.as_str());
            } else if same_text(k.as_str(), "atomic_write_dir") {
                b.atomic_write_dir(v.as_str());
            }
            i = i + 1;
        }
        b
    }

    /// The backend this builder describes: the root and the scratch directory
    /// normalised, the root `/` when none was set. The root is taken out of
    /// the builder.
    pub fn build(&mut self) -> (r: Result<Backend, Error>)
        ensures
            r matches Ok(b) ==> crate::path::is_root_form(b.root@),
            final(self).root is None,
            final(self).atomic_write_dir == old(self).atomic_write_dir,
            r matches Ok(b) && b.root@ == normal_root(match opt_view(old(self).root) { Some(v) => v, None => Seq::empty() })
                && opt_view(b.atomic_write_dir) == match opt_view(old(self).atomic_write_dir) {
                    Some(d) => Some(normal_root(d)),
                    None => None,
                },
    {
        let root_in = match self.root.take() {
            Some(v) => v,
            None => String::new(),
        };
        let root = normalize_root(root_in.as_str());
        let atomic_write_dir = match &self.atomic_write_dir {
            Some(d) => Some(normalize_root(d.as_str())),
            None => None,
        };
        Ok(Backend { root, atomic_write_dir })
    }
}

/// The value the last pair with key `k` among the first `n` pairs gives, as
/// the builder's setters keep it.
pub open spec fn last_option(it: Seq<(String, String)>, k: Seq<char>, n: int) -> Option<Seq<char>>
    decreases n,
{
    if n <= 0 {
        None
    } else if it[n - 1].0@ == k {
        option_value(it[n - 1].1@)
    } else {
        last_option(it, k, n - 1)
    }
}

/// The filesystem backend: a normalised root and an optional scratch directory.
#[derive(Debug)]
pub struct Backend {
    pub root: String,
    pub atomic_write_dir: Option<String>,
}

impl Accessor for Backend {
    /// Read, write, list and blocking calls, with seekable readers.
    open spec fn spec_metadata(&self) -> AccessorInfo {
        AccessorInfo {
            scheme: Scheme::Fs,
            root: self.root@,
            name: Seq::empty(),
            capabilities: Capabilities { read: true, write: true, list: true, presign: false, multipart: false, blocking: true },
            hints: Hints { read_is_seekable: true, read_is_streamable: false },
        }
    }

    fn metadata(&self) -> (r: AccessorMetadata) {
        proof {
            reveal_strlit("");
            assert(""@ =~= Seq::<char>::empty());
        }
        AccessorMetadata::new(
            Scheme::Fs,
            self.root.as_str(),
            "",
            Capabilities { read: true, write: true, list: true, presign: false, multipart: false, blocking: true },
            Hints { read_is_seekable: true, read_is_streamable: false },
        )
    }
}

/// The hyphenated lower-case form of a UUID: 36 characters, `-` at
/// positions 8, 13, 18 and 23, lower-case hexadecimal digits elsewhere.
pub open spec fn is_hyphenated_uuid(s: Seq<char>) -> bool {
    &&& s.len() == 36
    &&& forall|i: int| 0 <= i < 36 ==> if i == 8 || i == 13 || i == 18 || i == 23 {
        #[trigger] s[i] == '-'
    } else {
        ('0' <= s[i] && s[i] <= '9') || ('a' <= s[i] && s[i] <= 'f')
    }
}

/// Relies on uuid's `Uuid::new_v4` and its `Display`, which writes the
/// hyphenated lower-case form.
#[verifier::external_body]
fn new_uuid_string() -> (r: String)
    ensures
        is_hyphenated_uuid(r@),
{
    uuid::Uuid::new_v4().to_string()
}

/// The name of the scratch file that an atomic write of `path` lands in:
/// the path's base name, a dot, and a fresh random identifier.
pub fn tmp_file_of(path: &str) -> (r: String)
    requires
        path@.len() < i64::MAX,
    ensures
        exists|u: Seq<char>| is_hyphenated_uuid(u) && r@ == basename(path@) + seq!['.'] + u,
{
    let mut v = chars_of(get_basename(path).as_str());
    v.push('.');
    let u = new_uuid_string();
    push_chars(&mut v, &chars_of(u.as_str()));
    string_from_chars(&v)
}

/// The check that the filesystem's answer agrees with the path's trailing
/// form: a directory found for a path without `/`, or a file found for one
/// with it, counts as not found.
pub fn check_path_mode(path: &str, is_dir: bool) -> (r: Result<(), Error>)
    ensures
        r is Ok <==> is_dir == ends_in_slash(path@),
        r matches Err(e) ==> e.kind == ErrorKind::ObjectNotFound,
{
    if is_dir != ends_with_slash(path) {
        Err(Error::new(ErrorKind::ObjectNotFound, "file mode is not match with its path"))
    } else {
        Ok(())
    }
}

/// The mode the filesystem's kind bits give.
pub fn mode_from_fs(is_dir: bool, is_file: bool) -> (r: ObjectMode)
    ensures
        r == if is_dir { ObjectMode::DIR } else if is_file { ObjectMode::FILE } else { ObjectMode::Unknown },
{
    if is_dir {
        ObjectMode::DIR
    } else if is_file {
        ObjectMode::FILE
    } else {
        ObjectMode::Unknown
    }
}

/// The bytes a read of `range` serves from a file of `len` bytes: where to
/// position the descriptor, where to stop, and how many bytes that is.
pub fn read_span(range: BytesRange, len: u64) -> (r: (u64, u64, u64))
    ensures
        (r.0, r.1) == resolved(range, len),
        r.2 == if r.1 > r.0 { (r.1 - r.0) as u64 } else { 0 },
{
    let (start, end) = range.resolve(len);
    (start, end, if end > start { end - start } else { 0 })
}

/// A read of a directory is refused.
pub fn check_readable(is_dir: bool) -> (r: Result<(), Error>)
    ensures
        r is Ok <==> !is_dir,
        r matches Err(e) ==> e.kind == ErrorKind::ObjectIsADirectory,
{
    if is_dir {
        Err(Error::new(ErrorKind::ObjectIsADirectory, "given path is a directory"))
    } else {
        Ok(())
    }
}

/// What a delete does after looking the path up: a path that is not found
/// is deleted already; another failure is returned; otherwise the
/// directory call is used for a directory and the file call for a file.
#[derive(Debug)]
pub enum DeleteStep {
    /// Nothing to delete.
    Done,
    /// Remove the directory.
    RemoveDir,
    /// Remove the file.
    RemoveFile,
    /// The lookup failed.
    Fail(Error),
}

/// Chooses the delete step from the lookup's result.
pub fn delete_step(lookup: Result<bool, Error>) -> (r: DeleteStep)
    ensures
        match lookup {
            Ok(true) => r is RemoveDir,
            Ok(false) => r is RemoveFile,
            Err(e) => if e.kind == ErrorKind::ObjectNotFound { r is Done } else { r matches DeleteStep::Fail(f) && f == e },
        },
{
    match lookup {
        Ok(is_dir) => if is_dir { DeleteStep::RemoveDir } else { DeleteStep::RemoveFile },
        Err(e) => if matches!(e.kind, ErrorKind::ObjectNotFound) { DeleteStep::Done } else { DeleteStep::Fail(e) },
    }
}


impl Default for Builder {
    /// A builder with nothing set.
    fn default() -> (r: Builder)
        ensures
            r.root is None,
            r.atomic_write_dir is None,
    {
        Builder::new()
    }
}

/// The entry for the member `name` found listing directory `dir` (the root
/// `/` lists with no prefix): a directory gets a trailing `/`; a file or
/// anything else keeps its name, and is left out when that path would end
/// in `/`. Each entry is complete, its mode known from the filesystem.
pub fn list_entry(dir: &str, name: &str, is_dir: bool, is_file: bool) -> (r: Option<ObjectEntry>)
    ensures
        r matches Some(e) ==> e.wf() && e.meta.complete,
        is_dir ==> (r matches Some(e) && e.path@ == query_prefix(dir@) + name@ + seq!['/'] && e.meta.mode == ObjectMode::DIR),
        !is_dir && !ends_in_slash(query_prefix(dir@) + name@) ==> (r matches Some(e)
            && e.path@ == query_prefix(dir@) + name@
            && e.meta.mode == if is_file { ObjectMode::FILE } else { ObjectMode::Unknown }),
        !is_dir && ends_in_slash(query_prefix(dir@) + name@) ==> r is None,
{
    proof {
        reveal_strlit("/");
        assert("/"@ =~= seq!['/']);
    }
    let mut p = if same_text(dir, "/") { Vec::new() } else { chars_of(dir) };
    push_chars(&mut p, &chars_of(name));
    if is_dir {
        p.push('/');
        return Some(ObjectEntry::with(string_from_chars(&p), ObjectMetadata::new(ObjectMode::DIR).with_complete()));
    }
    if p.len() > 0 && p[p.len() - 1] == '/' {
        return None;
    }
    let mode = if is_file { ObjectMode::FILE } else { ObjectMode::Unknown };
    Some(ObjectEntry::with(string_from_chars(&p), ObjectMetadata::new(mode).with_complete()))
}

} // verus!
