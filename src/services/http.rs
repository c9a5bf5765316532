//! The read-only HTTP backend.

use vstd::prelude::*;
use crate::accessor::Accessor;
use crate::error::{service_context, Error, ErrorKind};
use crate::header::{headers_parse, parse_into_object_metadata, HeaderList};
use crate::metadata::{AccessorInfo, AccessorMetadata, Capabilities, Hints, ObjectMetadata, ObjectMode, Scheme, mode_of_path};
use crate::path::normal_root;
use crate::path::normalize_root;
use crate::range::{is_full_range, range_header, renderable, BytesRange};
use crate::services::fs::{last_option, non_empty, opt_view, option_value};
use crate::services::reply::{dir_metadata, error_from_status, status_kind};
use crate::text::{ends_in_slash, ends_with_slash, same_text};

verus! {

/// Builder of the HTTP backend.
#[derive(Debug)]
pub struct Builder {
    pub endpoint: Option<String>,
    pub root: Option<String>,
}

impl Builder {
    /// A builder with nothing set.
    pub fn new() -> (r: Builder)
        ensures
            r.endpoint is None,
            r.root is None,
    {
        Builder { endpoint: None, root: None }
    }

    /// Takes its options from key/value pairs; other keys are ignored and a
    /// later pair wins over an earlier one, as the setters decide.
    pub fn from_iter(it: Vec<(String, String)>) -> (r: Builder)
        ensures
            opt_view(r.root) == last_option(it@, "root"@, it@.len() as int),
            opt_view(r.endpoint) == last_option(it@, "endpoint"@, it@.len() as int),
    {
        proof {
            reveal_strlit("root");
            reveal_strlit("endpoint");
            assert("root"@ != "endpoint"@) by { assert("root"@.len() != "endpoint"@.len()); }
        }
        let mut b = Builder::new();
        let mut i: usize = 0;
        while i < it.len()
            invariant
                i <= it@.len(),
                "root"@ != "endpoint"@,
                opt_view(b.root) == last_option(it@, "root"@, i as int),
                opt_view(b.endpoint) == last_option(it@, "endpoint"@, i as int),
            decreases it@.len() - i,
        {
            let (k, v) = (&it[i].0, &it[i].1);
            if same_text(k.as_str(), "root") {
                b.root(v.as_str());
            } else if same_text(k.as_str(), "endpoint") {
                b.endpoint(v.as_str());
            }
            i = i + 1;
        }
        b
    }

    /// Sets the endpoint, such as `https://example.com`; the empty string unsets it.
    pub fn endpoint(&mut self, endpoint: &str) -> (r: &mut Self)
        ensures
            opt_view(r.endpoint) == option_value(endpoint@),
            r.root == old(self).root,
            *final(self) == *final(r),
    {
        self.endpoint = non_empty(endpoint);
        self
    }

    /// Sets the root; the empty string unsets it.
    pub fn root(&mut self, root: &str) -> (r: &mut Self)
        ensures
            opt_view(r.root) == option_value(root@),
            r.endpoint == old(self).endpoint,
            *final(self) == *final(r),
    {
        self.root = non_empty(root);
        self
    }

    /// The backend this builder describes. The endpoint is required; the
    /// root is normalised and taken out of the builder.
    pub fn build(&mut self) -> (r: Result<Backend, Error>)
        ensures
            r matches Ok(b) ==> crate::path::is_root_form(b.root@),
            old(self).endpoint is None ==> (r matches Err(e) && e.kind == ErrorKind::BackendConfigInvalid
                && service_context(e, "http"@)
                && *final(self) == *old(self)),
            old(self).endpoint matches Some(ep) ==> (r matches Ok(b) && b.endpoint@ == ep@
                && b.root@ == normal_root(match opt_view(old(self).root) { Some(v) => v, None => Seq::empty() })
                && final(self).root is None && final(self).endpoint == old(self).endpoint),
    {
        let endpoint = match &self.endpoint {
            Some(v) => v.clone(),
            None => {
                return Err(Error::new(ErrorKind::BackendConfigInvalid, "endpoint is empty")
                    .with_context("service", "http"));
            },
        };
        let root_in = match self.root.take() {
            Some(v) => v,
            None => String::new(),
        };
        Ok(Backend { endpoint, root: normalize_root(root_in.as_str()) })
    }
}

/// The HTTP backend: an endpoint and a normalised root.
#[derive(Debug)]
pub struct Backend {
    pub endpoint: String,
    pub root: String,
}

impl Accessor for Backend {
    /// Read only, with streamable readers.
    open spec fn spec_metadata(&self) -> AccessorInfo {
        AccessorInfo {
            scheme: Scheme::Http,
            root: self.root@,
            name: Seq::empty(),
            capabilities: Capabilities { read: true, write: false, list: false, presign: false, multipart: false, blocking: false },
            hints: Hints { read_is_seekable: false, read_is_streamable: true },
        }
    }

    fn metadata(&self) -> (r: AccessorMetadata) {
        proof {
            reveal_strlit("");
            assert(""@ =~= Seq::<char>::empty());
        }
        let mut caps = Capabilities::none();
        caps.read = true;
        AccessorMetadata::new(
            Scheme::Http,
            self.root.as_str(),
            "",
            caps,
            Hints { read_is_seekable: false, read_is_streamable: true },
        )
    }
}

/// The `Range` header a GET carries for `range`: none for the whole object.
pub fn range_header_for(range: BytesRange) -> (r: Option<String>)
    requires
        renderable(range),
    ensures
        match r {
            None => is_full_range(range),
            Some(h) => !is_full_range(range) && h@ == range_header(range),
        },
{
    if range.is_full() { None } else { Some(range.to_header()) }
}

/// A read's reply: 200 and 206 give the metadata the headers describe;
/// another status is an error of the kind it stands for.
pub fn read_reply(path: &str, status: u16, headers: &HeaderList) -> (r: Result<ObjectMetadata, Error>)
    ensures
        (status == 200 || status == 206) ==> (r is Ok <==> headers_parse(headers.entries@)),
        (status == 200 || status == 206) ==> (r matches Ok(m) ==> m.mode == mode_of_path(path@)),
        !(status == 200 || status == 206) ==> (r matches Err(e) && e.kind == status_kind(status)),
{
    if status == 200 || status == 206 {
        parse_into_object_metadata(path, headers)
    } else {
        Err(error_from_status(status))
    }
}

/// A stat's outcome. The root is a directory without asking the server;
/// 200 gives the metadata the headers describe; a 404 or 403 for a path
/// ending in `/` is a directory (servers refuse to index); another status
/// is an error of the kind it stands for.
pub fn stat_reply(path: &str, status: u16, headers: &HeaderList) -> (r: Result<ObjectMetadata, Error>)
    ensures
        path@ == seq!['/'] ==> (r matches Ok(m) && m.mode == ObjectMode::DIR),
        path@ != seq!['/'] && status == 200 ==> (r is Ok <==> headers_parse(headers.entries@)),
        path@ != seq!['/'] && status == 200 ==> (r matches Ok(m) ==> m.mode == mode_of_path(path@)),
        path@ != seq!['/'] && status != 200 && (status == 404 || status == 403) && ends_in_slash(path@)
            ==> (r matches Ok(m) && m.mode == ObjectMode::DIR),
        path@ != seq!['/'] && status != 200 && !((status == 404 || status == 403) && ends_in_slash(path@))
            ==> (r matches Err(e) && e.kind == status_kind(status)),
{
    proof {
        reveal_strlit("/");
        assert("/"@ =~= seq!['/']);
    }
    if same_text(path, "/") {
        return Ok(dir_metadata());
    }
    if status == 200 {
        parse_into_object_metadata(path, headers)
    } else if (status == 404 || status == 403) && ends_with_slash(path) {
        Ok(dir_metadata())
    } else {
        Err(error_from_status(status))
    }
}


impl Default for Builder {
    /// A builder with nothing set.
    fn default() -> (r: Builder)
        ensures
            r.endpoint is None,
            r.root is None,
    {
        Builder::new()
    }
}

} // verus!
