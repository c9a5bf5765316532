//! Standard HTTP reply headers and the object metadata they carry.

use vstd::prelude::*;
use crate::error::{Error, ErrorKind};
use crate::metadata::{mode_for_path, mode_of_path, ObjectMetadata};
use crate::range::{content_range_of, BytesContentRange};
use crate::text::{same_text, string_from_chars};

verus! {

/// A reply's headers, in order, each a lower-case name and the raw value bytes.
#[derive(Debug)]
pub struct HeaderList {
    pub entries: Vec<(String, Vec<u8>)>,
}

/// The value of the first header called `name`, if any.
pub open spec fn first_value(h: Seq<(String, Vec<u8>)>, name: Seq<char>) -> Option<Seq<u8>>
    decreases h.len(),
{
    if h.len() == 0 {
        None
    } else if h[0].0@ == name {
        Some(h[0].1@)
    } else {
        first_value(h.subrange(1, h.len() as int), name)
    }
}

/// A byte that a header value may hold as text: visible ASCII or a tab.
pub open spec fn is_visible_ascii(b: u8) -> bool {
    (b >= 32 && b < 127) || b == 9
}

/// The text of a header value whose bytes are all visible ASCII.
pub open spec fn visible_text(b: Seq<u8>) -> Option<Seq<char>> {
    if forall|i: int| 0 <= i < b.len() ==> is_visible_ascii(#[trigger] b[i]) {
        Some(b.map_values(|x: u8| x as char))
    } else {
        None
    }
}

/// What reading the header `name` as text gives: `None` when absent,
/// `Some(None)` when its value is not text, else the text.
pub open spec fn header_text(h: Seq<(String, Vec<u8>)>, name: Seq<char>) -> Option<Option<Seq<char>>> {
    match first_value(h, name) {
        None => None,
        Some(b) => Some(visible_text(b)),
    }
}

impl HeaderList {
    /// No headers.
    pub fn new() -> (r: HeaderList)
        ensures
            r.entries@.len() == 0,
    {
        HeaderList { entries: Vec::new() }
    }

    /// Appends a header.
    pub fn push(&mut self, name: String, value: Vec<u8>)
        ensures
            final(self).entries@ == old(self).entries@.push((name, value)),
    {
        self.entries.push((name, value));
    }

    /// The header `name` as text.
    pub fn text(&self, name: &str) -> (r: Option<Result<String, Error>>)
        ensures
            match (r, header_text(self.entries@, name@)) {
                (None, None) => true,
                (Some(Ok(s)), Some(Some(t))) => s@ == t,
                (Some(Err(e)), Some(None)) => e.kind == ErrorKind::Unexpected,
                _ => false,
            },
    {
        let mut i: usize = 0;
        assert(self.entries@.subrange(0, self.entries@.len() as int) =~= self.entries@);
        while i < self.entries.len()
            invariant
                i <= self.entries@.len(),
                first_value(self.entries@, name@) == first_value(self.entries@.subrange(i as int, self.entries@.len() as int), name@),
            decreases self.entries@.len() - i,
        {
            let ghost rest = self.entries@.subrange(i as int, self.entries@.len() as int);
            assert(rest.subrange(1, rest.len() as int) =~= self.entries@.subrange(i + 1, self.entries@.len() as int));
            if same_text(self.entries[i].0.as_str(), name) {
                return Some(value_text(&self.entries[i].1));
            }
            i = i + 1;
        }
        None
    }
}

/// The value's bytes as text, refused unless all are visible ASCII.
fn value_text(b: &Vec<u8>) -> (r: Result<String, Error>)
    ensures
        match (r, visible_text(b@)) {
            (Ok(s), Some(t)) => s@ == t,
            (Err(e), None) => e.kind == ErrorKind::Unexpected,
            _ => false,
        },
{
    let mut v: Vec<char> = Vec::new();
    let mut i: usize = 0;
    while i < b.len()
        invariant
            i <= b@.len(),
            v@ == b@.subrange(0, i as int).map_values(|x: u8| x as char),
            forall|k: int| 0 <= k < i ==> is_visible_ascii(#[trigger] b@[k]),
        decreases b@.len() - i,
    {
        let x = b[i];
        if !((x >= 32 && x < 127) || x == 9) {
            return Err(Error::new(ErrorKind::Unexpected, "header value is not valid utf-8 string"));
        }
        v.push(x as char);
        i = i + 1;
        assert(v@ =~= b@.subrange(0, i as int).map_values(|x: u8| x as char));
    }
    assert(b@.subrange(0, b@.len() as int) =~= b@);
    Ok(string_from_chars(&v))
}

/// The seconds since the Unix epoch of an RFC 2822 date, when the text is one.
pub uninterp spec fn rfc2822_seconds(s: Seq<char>) -> Option<i64>;

/// Relies on time's `OffsetDateTime::parse` with the `Rfc2822` description,
/// and `unix_timestamp`: the result depends on the text alone.
#[verifier::external_body]
fn parse_rfc2822(s: &str) -> (r: Option<i64>)
    ensures
        r == rfc2822_seconds(s@),
{
    time::OffsetDateTime::parse(s, &time::format_description::well_known::Rfc2822)
        .ok()
        .map(|t| t.unix_timestamp())
}

/// The `content-length` header as an integer.
pub fn parse_content_length(headers: &HeaderList) -> (r: Result<Option<u64>, Error>)
    ensures
        match header_text(headers.entries@, "content-length"@) {
            None => r == Ok::<Option<u64>, Error>(None),
            Some(None) => r is Err,
            Some(Some(t)) => match crate::range::u64_of(t) {
                Some(n) => r == Ok::<Option<u64>, Error>(Some(n)),
                None => r is Err,
            },
        },
{
    match headers.text("content-length") {
        None => Ok(None),
        Some(Err(e)) => Err(e.with_operation("http_util::parse_content_length")),
        Some(Ok(s)) => match crate::range::parse_u64(&crate::text::chars_of(s.as_str())) {
            Some(n) => Ok(Some(n)),
            None => Err(Error::new(ErrorKind::Unexpected, "header value is not valid integer")
                .with_operation("http_util::parse_content_length")),
        },
    }
}

/// The header `name` as text, when present.
fn parse_text_header(headers: &HeaderList, name: &str) -> (r: Result<Option<String>, Error>)
    ensures
        match header_text(headers.entries@, name@) {
            None => r matches Ok(None),
            Some(None) => r is Err,
            Some(Some(t)) => r matches Ok(Some(s)) && s@ == t,
        },
{
    match headers.text(name) {
        None => Ok(None),
        Some(Err(e)) => Err(e),
        Some(Ok(s)) => Ok(Some(s)),
    }
}

/// The `content-md5` header.
pub fn parse_content_md5(headers: &HeaderList) -> (r: Result<Option<String>, Error>)
    ensures
        match header_text(headers.entries@, "content-md5"@) {
            None => r matches Ok(None),
            Some(None) => r is Err,
            Some(Some(t)) => r matches Ok(Some(s)) && s@ == t,
        },
{
    parse_text_header(headers, "content-md5")
}

/// The `content-type` header.
pub fn parse_content_type(headers: &HeaderList) -> (r: Result<Option<String>, Error>)
    ensures
        match header_text(headers.entries@, "content-type"@) {
            None => r matches Ok(None),
            Some(None) => r is Err,
            Some(Some(t)) => r matches Ok(Some(s)) && s@ == t,
        },
{
    parse_text_header(headers, "content-type")
}

/// The `etag` header.
pub fn parse_etag(headers: &HeaderList) -> (r: Result<Option<String>, Error>)
    ensures
        match header_text(headers.entries@, "etag"@) {
            None => r matches Ok(None),
            Some(None) => r is Err,
            Some(Some(t)) => r matches Ok(Some(s)) && s@ == t,
        },
{
    parse_text_header(headers, "etag")
}

/// The `content-range` header.
pub fn parse_content_range(headers: &HeaderList) -> (r: Result<Option<BytesContentRange>, Error>)
    ensures
        match header_text(headers.entries@, "content-range"@) {
            None => r matches Ok(None),
            Some(None) => r is Err,
            Some(Some(t)) => match content_range_of(t) {
                Some(c) => r == Ok::<Option<BytesContentRange>, Error>(Some(c)),
                None => r is Err,
            },
        },
{
    match headers.text("content-range") {
        None => Ok(None),
        Some(Err(e)) => Err(e.with_operation("http_util::parse_content_range")),
        Some(Ok(s)) => match BytesContentRange::parse(s.as_str()) {
            Ok(c) => Ok(Some(c)),
            Err(e) => Err(e),
        },
    }
}

/// The `last-modified` header, in seconds since the Unix epoch.
pub fn parse_last_modified(headers: &HeaderList) -> (r: Result<Option<i64>, Error>)
    ensures
        match header_text(headers.entries@, "last-modified"@) {
            None => r matches Ok(None),
            Some(None) => r is Err,
            Some(Some(t)) => match rfc2822_seconds(t) {
                Some(n) => r == Ok::<Option<i64>, Error>(Some(n)),
                None => r is Err,
            },
        },
{
    match headers.text("last-modified") {
        None => Ok(None),
        Some(Err(e)) => Err(e.with_operation("http_util::parse_last_modified")),
        Some(Ok(s)) => match parse_rfc2822(s.as_str()) {
            Some(n) => Ok(Some(n)),
            None => Err(Error::new(ErrorKind::Unexpected, "header value is not valid rfc2822 time")
                .with_operation("http_util::parse_last_modified")),
        },
    }
}

/// Whether header `name` is absent or reads as text.
pub open spec fn text_ok(h: Seq<(String, Vec<u8>)>, name: Seq<char>) -> bool {
    !(header_text(h, name) matches Some(None))
}

/// The text of header `name`, if present and text.
pub open spec fn text_value(h: Seq<(String, Vec<u8>)>, name: Seq<char>) -> Option<Seq<char>> {
    match header_text(h, name) {
        Some(Some(t)) => Some(t),
        _ => None,
    }
}

/// Every standard header that is present parses.
pub open spec fn headers_parse(h: Seq<(String, Vec<u8>)>) -> bool {
    &&& text_ok(h, "content-length"@)
    &&& (text_value(h, "content-length"@) matches Some(t) ==> crate::range::u64_of(t) is Some)
    &&& text_ok(h, "content-type"@)
    &&& text_ok(h, "content-range"@)
    &&& (text_value(h, "content-range"@) matches Some(t) ==> content_range_of(t) is Some)
    &&& text_ok(h, "etag"@)
    &&& text_ok(h, "content-md5"@)
    &&& text_ok(h, "last-modified"@)
    &&& (text_value(h, "last-modified"@) matches Some(t) ==> rfc2822_seconds(t) is Some)
}

/// The view of an optional string.
pub open spec fn opt_text(v: Option<String>) -> Option<Seq<char>> {
    match v {
        Some(s) => Some(s@),
        None => None,
    }
}

/// The metadata that the standard headers describe for the object at `path`:
/// a directory when the path ends in `/`, a file otherwise, with length,
/// type, range, entity tag, MD5 and last-modified time from the headers that
/// are present. Fails when a present header does not parse.
pub fn parse_into_object_metadata(path: &str, headers: &HeaderList) -> (r: Result<ObjectMetadata, Error>)
    ensures
        r is Ok <==> headers_parse(headers.entries@),
        r matches Ok(m) ==> {
            &&& m.mode == mode_of_path(path@)
            &&& !m.complete
            &&& m.content_length == match text_value(headers.entries@, "content-length"@) {
                Some(t) => crate::range::u64_of(t),
                None => None,
            }
            &&& opt_text(m.content_type) == text_value(headers.entries@, "content-type"@)
            &&& m.content_range == match text_value(headers.entries@, "content-range"@) {
                Some(t) => content_range_of(t),
                None => None,
            }
            &&& opt_text(m.etag) == text_value(headers.entries@, "etag"@)
            &&& opt_text(m.content_md5) == text_value(headers.entries@, "content-md5"@)
            &&& m.last_modified == match text_value(headers.entries@, "last-modified"@) {
                Some(t) => rfc2822_seconds(t),
                None => None,
            }
        },
{
    let mut m = ObjectMetadata::new(mode_for_path(path));
    match parse_content_length(headers) {
        Err(e) => return Err(e),
        Ok(v) => m.content_length = v,
    }
    match parse_content_type(headers) {
        Err(e) => return Err(e),
        Ok(v) => m.content_type = v,
    }
    match parse_content_range(headers) {
        Err(e) => return Err(e),
        Ok(v) => m.content_range = v,
    }
    match parse_etag(headers) {
        Err(e) => return Err(e),
        Ok(v) => m.etag = v,
    }
    match parse_content_md5(headers) {
        Err(e) => return Err(e),
        Ok(v) => m.content_md5 = v,
    }
    match parse_last_modified(headers) {
        Err(e) => return Err(e),
        Ok(v) => m.last_modified = v,
    }
    Ok(m)
}

} // verus!
