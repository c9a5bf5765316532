//! The FTP backend's listing: a cursor over the lines of a `LIST` reply and
//! the entry each parsed line gives.

use vstd::prelude::*;
use crate::entry::{ObjectEntry, ObjectPage};
use crate::error::{Error, ErrorKind};
use crate::metadata::{ObjectMetadata, ObjectMode};
use crate::text::{chars_of, ends_in_slash, ends_with_slash, owned, push_chars, string_from_chars};

verus! {

/// The lines of a directory listing, handed out one at a time.
#[derive(Debug)]
pub struct ReadDir {
    pub files: Vec<String>,
    pub index: usize,
}

impl ReadDir {
    /// A cursor at the first of the given lines.
    pub fn new(files: Vec<String>) -> (r: ReadDir)
        ensures
            r.files == files,
            r.index == 0,
    {
        ReadDir { files, index: 0 }
    }

    /// The next line, if any is left.
    pub fn next_line(&mut self) -> (r: Option<String>)
        ensures
            final(self).files == old(self).files,
            old(self).index < old(self).files@.len() ==> (r matches Some(l) && l == old(self).files@[old(self).index as int]
                && final(self).index == old(self).index + 1),
            old(self).index >= old(self).files@.len() ==> (r is None && final(self).index == old(self).index),
    {
        if self.index >= self.files.len() {
            return None;
        }
        let line = self.files[self.index].clone();
        self.index = self.index + 1;
        Some(line)
    }
}

/// The kind of a listed FTP entry.
#[derive(Clone, Copy, Debug, PartialEq, Eq, Structural)]
pub enum FtpKind {
    File,
    Directory,
    Other,
}

/// One parsed line of a listing.
#[derive(Debug)]
pub struct FtpFile {
    pub name: String,
    pub kind: FtpKind,
    pub size: u64,
    /// Seconds since the Unix epoch, when known.
    pub modified: Option<i64>,
}

/// The entry of a listed file under directory `dir`: a file with its length
/// and time, a directory with a `/` appended, anything else of unknown mode;
/// each complete.
pub fn entry_of_file(dir: &str, f: &FtpFile) -> (r: ObjectEntry)
    requires
        f.name@.len() > 0,
        !ends_in_slash(f.name@),
    ensures
        r.wf(),
        r.meta.complete,
        f.kind == FtpKind::Directory ==> r.path@ == dir@ + f.name@ + seq!['/'] && r.meta.mode == ObjectMode::DIR,
        f.kind == FtpKind::File ==> r.path@ == dir@ + f.name@ && r.meta.mode == ObjectMode::FILE
            && r.meta.content_length == Some(f.size) && r.meta.last_modified == f.modified,
        f.kind == FtpKind::Other ==> r.path@ == dir@ + f.name@ && r.meta.mode == ObjectMode::Unknown,
{
    let mut p = chars_of(dir);
    push_chars(&mut p, &chars_of(f.name.as_str()));
    assert(!ends_in_slash(p@)) by {
        assert(p@.last() == f.name@.last());
    }
    match f.kind {
        FtpKind::File => {
            let mut meta = ObjectMetadata::new(ObjectMode::FILE).with_content_length(f.size).with_complete();
            meta.last_modified = f.modified;
            ObjectEntry::with(string_from_chars(&p), meta)
        },
        FtpKind::Directory => {
            p.push('/');
            ObjectEntry::with(string_from_chars(&p), ObjectMetadata::new(ObjectMode::DIR).with_complete())
        },
        FtpKind::Other => {
            ObjectEntry::with(string_from_chars(&p), ObjectMetadata::new(ObjectMode::Unknown).with_complete())
        },
    }
}

/// Relies on suppaftp's `File::from_str` (POSIX, then DOS listing lines)
/// and its `name`, `is_file`, `is_directory`, `size` and `modified` (as
/// seconds since the Unix epoch, none for a time before it). The result is
/// not named: a line without a year is read in the current year, so the
/// outcome depends on the clock as well as on the line.
///
/// A file is never also a directory: both flags come from one file type.
#[verifier::external_body]
fn parse_list_line(line: &str) -> (r: Option<(String, bool, bool, u64, Option<u64>)>)
    ensures
        r matches Some((_, is_file, is_dir, _, _)) ==> !(is_file && is_dir),
{
    let f = <suppaftp::list::File as std::str::FromStr>::from_str(line).ok()?;
    let modified = f.modified().duration_since(std::time::UNIX_EPOCH).ok();
    let secs = modified.as_ref().map(std::time::Duration::as_secs);
    Some((f.name().to_string(), f.is_file(), f.is_directory(), f.size() as u64, secs))
}

/// The kind that the file and directory flags give: a file first, as the
/// listing code asks it first.
pub open spec fn kind_of(is_file: bool, is_dir: bool) -> FtpKind {
    if is_file { FtpKind::File } else if is_dir { FtpKind::Directory } else { FtpKind::Other }
}

/// The file that a parsed line describes; a time past what seconds in 64
/// signed bits hold is left unknown.
pub fn file_from_parts(name: String, is_file: bool, is_dir: bool, size: u64, modified: Option<u64>) -> (r: FtpFile)
    ensures
        r.name == name,
        r.kind == kind_of(is_file, is_dir),
        r.size == size,
        r.modified == match modified {
            Some(m) => if m <= i64::MAX { Some(m as i64) } else { None },
            None => None,
        },
{
    let kind = if is_file { FtpKind::File } else if is_dir { FtpKind::Directory } else { FtpKind::Other };
    let modified = match modified {
        Some(m) => if m <= i64::MAX as u64 { Some(m as i64) } else { None },
        None => None,
    };
    FtpFile { name, kind, size, modified }
}

/// Pages of a directory listing, at most `size` entries each.
#[derive(Debug)]
pub struct DirStream {
    pub path: String,
    pub size: usize,
    pub rd: ReadDir,
}

impl DirStream {
    /// A pager over the lines of the listing of `path`, 256 entries a page.
    pub fn new(path: &str, rd: ReadDir) -> (r: DirStream)
        ensures
            r.path@ == path@,
            r.size == 256,
            r.rd == rd,
    {
        DirStream { path: owned(path), size: 256, rd }
    }
}

/// The path a listed name gets under `dir`: a directory's ends in `/`.
pub open spec fn listed_path(dir: Seq<char>, name: Seq<char>, kind: FtpKind) -> Seq<char> {
    if kind == FtpKind::Directory { dir + name + seq!['/'] } else { dir + name }
}

/// The mode an entry of a listed kind has.
pub open spec fn kind_mode(kind: FtpKind) -> ObjectMode {
    match kind {
        FtpKind::File => ObjectMode::FILE,
        FtpKind::Directory => ObjectMode::DIR,
        FtpKind::Other => ObjectMode::Unknown,
    }
}

/// A name that can stand in a path: not empty, not ending in `/`.
pub open spec fn usable_name(name: Seq<char>) -> bool {
    name.len() > 0 && !ends_in_slash(name)
}

/// The entry that one listing line gives under `dir`, from what the line
/// parsed to: an error when it did not parse or names nothing usable.
pub fn entry_of_parsed(dir: &str, parts: Option<(String, bool, bool, u64, Option<u64>)>) -> (r: Result<ObjectEntry, Error>)
    ensures
        match parts {
            None => r matches Err(e) && e.kind == ErrorKind::Unexpected,
            Some((name, is_file, is_dir, size, modified)) => if !usable_name(name@) {
                r matches Err(e) && e.kind == ErrorKind::Unexpected
            } else {
                r matches Ok(e) && {
                    &&& e.wf()
                    &&& e.meta.complete
                    &&& e.path@ == listed_path(dir@, name@, kind_of(is_file, is_dir))
                    &&& e.meta.mode == kind_mode(kind_of(is_file, is_dir))
                    &&& kind_of(is_file, is_dir) == FtpKind::File ==> e.meta.content_length == Some(size)
                        && e.meta.last_modified == match modified {
                            Some(m) => if m <= i64::MAX { Some(m as i64) } else { None },
                            None => None,
                        }
                }
            },
        },
{
    let f = match parts {
        Some((name, is_file, is_dir, size, modified)) => file_from_parts(name, is_file, is_dir, size, modified),
        None => return Err(Error::new(ErrorKind::Unexpected, "parse file from response")),
    };
    if f.name.as_str().unicode_len() == 0 || ends_with_slash(f.name.as_str()) {
        return Err(Error::new(ErrorKind::Unexpected, "listed file has no name"));
    }
    Ok(entry_of_file(dir, &f))
}

/// The number of lines a page takes: up to `size`, as many as are left.
pub open spec fn page_len(rd: ReadDir, size: usize) -> int {
    let left = rd.files@.len() - rd.index;
    if left <= 0 { 0 } else if left < size { left } else { size as int }
}

impl ObjectPage for DirStream {
    /// The next page: one entry per line, up to `size`; `None` once no line
    /// is left. A line that does not parse, or names nothing (an empty name
    /// or one ending in `/`), is an error.
    fn next_page(&mut self) -> (r: Result<Option<Vec<ObjectEntry>>, Error>)
        ensures
            final(self).path == old(self).path,
            final(self).size == old(self).size,
            final(self).rd.files == old(self).rd.files,
            old(self).rd.index >= old(self).rd.files@.len() ==> (r matches Ok(None) && final(self).rd.index == old(self).rd.index),
            old(self).rd.index < old(self).rd.files@.len() && old(self).size > 0 ==> !(r matches Ok(None)),
            r matches Err(e) ==> e.kind == ErrorKind::Unexpected,
            r matches Ok(Some(p)) ==> {
                &&& p@.len() == page_len(old(self).rd, old(self).size)
                &&& 0 < p@.len() <= old(self).size
                &&& final(self).rd.index == old(self).rd.index + p@.len()
                &&& forall|k: int| 0 <= k < p@.len() ==> {
                    &&& (#[trigger] p@[k]).wf()
                    &&& p@[k].meta.complete
                    &&& exists|name: Seq<char>, kind: FtpKind| usable_name(name)
                        && p@[k].path@ == listed_path(old(self).path@, name, kind)
                        && p@[k].meta.mode == kind_mode(kind)
                }
            },
    {
        let ghost start = self.rd.index as int;
        let mut oes: Vec<ObjectEntry> = Vec::new();
        let mut i: usize = 0;
        while i < self.size && self.rd.index < self.rd.files.len()
            invariant
                self.path == old(self).path,
                self.size == old(self).size,
                self.rd.files == old(self).rd.files,
                start == old(self).rd.index,
                oes@.len() == i,
                i <= self.size,
                self.rd.index == start + i,
                i == 0 || self.rd.index <= self.rd.files@.len(),
                forall|k: int| 0 <= k < oes@.len() ==> {
                    &&& (#[trigger] oes@[k]).wf()
                    &&& oes@[k].meta.complete
                    &&& exists|name: Seq<char>, kind: FtpKind| usable_name(name)
                        && oes@[k].path@ == listed_path(old(self).path@, name, kind)
                        && oes@[k].meta.mode == kind_mode(kind)
                },
            decreases self.size - i,
        {
            let line = match self.rd.next_line() {
                Some(l) => l,
                None => String::new(),
            };
            let parts = parse_list_line(line.as_str());
            let ghost gp = parts;
            let e = match entry_of_parsed(self.path.as_str(), parts) {
                Ok(e) => e,
                Err(e) => return Err(e),
            };
            proof {
                let (name, is_file, is_dir, _, _) = gp->Some_0;
                assert(usable_name(name@) && e.path@ == listed_path(old(self).path@, name@, kind_of(is_file, is_dir))
                    && e.meta.mode == kind_mode(kind_of(is_file, is_dir)));
            }
            oes.push(e);
            i = i + 1;
        }
        assert(i == page_len(old(self).rd, old(self).size));
        if oes.len() == 0 { Ok(None) } else { Ok(Some(oes)) }
    }
}

} // verus!
