//! The object-store backend (Huawei Cloud OBS): its builder, the endpoint
//! rules, and the statuses that count as success.

use vstd::prelude::*;
use crate::accessor::Accessor;
use crate::error::{service_context, Error, ErrorKind};
use crate::header::{headers_parse, parse_into_object_metadata, HeaderList};
use crate::metadata::{mode_of_path, AccessorInfo, AccessorMetadata, Capabilities, Hints, ObjectMetadata, ObjectMode, Scheme};
use crate::path::{normal_root, normalize_root};
use crate::services::fs::opt_view;
use crate::services::ghac::{kept_unless_empty, last_nonempty};
use crate::services::reply::{dir_metadata, error_from_status, status_kind};
use crate::text::{
    chars_end_with, chars_of, chars_start_with, ends_in_slash, ends_with_slash, is_prefix, is_suffix,
    owned, push_chars, same_text, string_from_chars, trim_end_slashes, trim_end_slashes_exec,
};

verus! {

/// Builder of the object-store backend.
#[derive(Debug)]
pub struct Builder {
    pub root: Option<String>,
    pub endpoint: Option<String>,
    pub access_key_id: Option<String>,
    pub secret_access_key: Option<String>,
    pub bucket: Option<String>,
}

impl Builder {
    /// A builder with nothing set.
    pub fn new() -> (r: Builder)
        ensures
            r.root is None && r.endpoint is None && r.access_key_id is None
                && r.secret_access_key is None && r.bucket is None,
    {
        Builder { root: None, endpoint: None, access_key_id: None, secret_access_key: None, bucket: None }
    }

    /// Takes its options from key/value pairs; other keys are ignored and a
    /// later pair wins over an earlier one, as the setters decide.
    pub fn from_iter(it: Vec<(String, String)>) -> (r: Builder)
        ensures
            opt_view(r.root) == last_nonempty(it@, "root"@, it@.len() as int),
            opt_view(r.bucket) == last_nonempty(it@, "bucket"@, it@.len() as int),
            opt_view(r.endpoint) == match last_nonempty(it@, "endpoint"@, it@.len() as int) { Some(v) => Some(trim_end_slashes(v)), None => None },
            opt_view(r.access_key_id) == last_nonempty(it@, "access_key_id"@, it@.len() as int),
            opt_view(r.secret_access_key) == last_nonempty(it@, "secret_access_key"@, it@.len() as int),
    {
        proof {
            reveal_strlit("root");
            reveal_strlit("bucket");
            reveal_strlit("endpoint");
            reveal_strlit("access_key_id");
            reveal_strlit("secret_access_key");
            assert("root"@ != "bucket"@) by { assert("root"@.len() != "bucket"@.len()); }
            assert("root"@ != "endpoint"@) by { assert("root"@.len() != "endpoint"@.len()); }
            assert("root"@ != "access_key_id"@) by { assert("root"@.len() != "access_key_id"@.len()); }
            assert("root"@ != "secret_access_key"@) by { assert("root"@.len() != "secret_access_key"@.len()); }
            assert("bucket"@ != "endpoint"@) by { assert("bucket"@.len() != "endpoint"@.len()); }
            assert("bucket"@ != "access_key_id"@) by { assert("bucket"@.len() != "access_key_id"@.len()); }
            assert("bucket"@ != "secret_access_key"@) by { assert("bucket"@.len() != "secret_access_key"@.len()); }
            assert("endpoint"@ != "access_key_id"@) by { assert("endpoint"@.len() != "access_key_id"@.len()); }
            assert("endpoint"@ != "secret_access_key"@) by { assert("endpoint"@.len() != "secret_access_key"@.len()); }
            assert("access_key_id"@ != "secret_access_key"@) by { assert("access_key_id"@.len() != "secret_access_key"@.len()); }
        }
        let mut b = Builder::new();
        let mut i: usize = 0;
        while i < it.len()
            invariant
                i <= it@.len(),
                "root"@ != "bucket"@,
                "root"@ != "endpoint"@,
                "root"@ != "access_key_id"@,
                "root"@ != "secret_access_key"@,
                "bucket"@ != "endpoint"@,
                "bucket"@ != "access_key_id"@,
                "bucket"@ != "secret_access_key"@,
                "endpoint"@ != "access_key_id"@,
                "endpoint"@ != "secret_access_key"@,
                "access_key_id"@ != "secret_access_key"@,
                opt_view(b.root) == last_nonempty(it@, "root"@, i as int),
                opt_view(b.bucket) == last_nonempty(it@, "bucket"@, i as int),
                opt_view(b.endpoint) == match last_nonempty(it@, "endpoint"@, i as int) { Some(v) => Some(trim_end_slashes(v)), None => None },
                opt_view(b.access_key_id) == last_nonempty(it@, "access_key_id"@, i as int),
                opt_view(b.secret_access_key) == last_nonempty(it@, "secret_access_key"@, i as int),
            decreases it@.len() - i,
        {
            let (k, v) = (&it[i].0, &it[i].1);
            if same_text(k.as_str(), "root") {
                b.root(v.as_str());
            } else if same_text(k.as_str(), "bucket") {
                b.bucket(v.as_str());
            } else if same_text(k.as_str(), "endpoint") {
                b.endpoint(v.as_str());
            } else if same_text(k.as_str(), "access_key_id") {
                b.access_key_id(v.as_str());
            } else if same_text(k.as_str(), "secret_access_key") {
                b.secret_access_key(v.as_str());
            }
            i = i + 1;
        }
        b
    }

    /// Sets the root; the empty string leaves it as it was.
    pub fn root(&mut self, root: &str) -> (r: &mut Self)
        ensures
            opt_view(r.root) == kept_unless_empty(old(self).root, root@),
            r.endpoint == old(self).endpoint,
            r.access_key_id == old(self).access_key_id,
            r.secret_access_key == old(self).secret_access_key,
            r.bucket == old(self).bucket,
            *final(self) == *final(r),
    {
        if root.unicode_len() > 0 {
            self.root = Some(owned(root));
        }
        self
    }

    /// Sets the endpoint without its trailing `/`; the empty string leaves
    /// it as it was. The bucket name does not belong in it.
    pub fn endpoint(&mut self, endpoint: &str) -> (r: &mut Self)
        ensures
            opt_view(r.endpoint) == if endpoint@.len() == 0 {
                opt_view(old(self).endpoint)
            } else {
                Some(trim_end_slashes(endpoint@))
            },
            r.root == old(self).root,
            r.access_key_id == old(self).access_key_id,
            r.secret_access_key == old(self).secret_access_key,
            r.bucket == old(self).bucket,
            *final(self) == *final(r),
    {
        if endpoint.unicode_len() > 0 {
            self.endpoint = Some(trim_end_slashes_exec(endpoint));
        }
        self
    }

    /// Sets the access key id; the empty string leaves it as it was.
    pub fn access_key_id(&mut self, v: &str) -> (r: &mut Self)
        ensures
            opt_view(r.access_key_id) == kept_unless_empty(old(self).access_key_id, v@),
            r.root == old(self).root,
            r.endpoint == old(self).endpoint,
            r.secret_access_key == old(self).secret_access_key,
            r.bucket == old(self).bucket,
            *final(self) == *final(r),
    {
        if v.unicode_len() > 0 {
            self.access_key_id = Some(owned(v));
        }
        self
    }

    /// Sets the secret access key; the empty string leaves it as it was.
    pub fn secret_access_key(&mut self, v: &str) -> (r: &mut Self)
        ensures
            opt_view(r.secret_access_key) == kept_unless_empty(old(self).secret_access_key, v@),
            r.root == old(self).root,
            r.endpoint == old(self).endpoint,
            r.access_key_id == old(self).access_key_id,
            r.bucket == old(self).bucket,
            *final(self) == *final(r),
    {
        if v.unicode_len() > 0 {
            self.secret_access_key = Some(owned(v));
        }
        self
    }

    /// Sets the bucket, which is required; the empty string leaves it as it was.
    pub fn bucket(&mut self, v: &str) -> (r: &mut Self)
        ensures
            opt_view(r.bucket) == kept_unless_empty(old(self).bucket, v@),
            r.root == old(self).root,
            r.endpoint == old(self).endpoint,
            r.access_key_id == old(self).access_key_id,
            r.secret_access_key == old(self).secret_access_key,
            *final(self) == *final(r),
    {
        if v.unicode_len() > 0 {
            self.bucket = Some(owned(v));
        }
        self
    }

    /// The backend this builder describes: the bucket and a parsable
    /// endpoint are required; the root is normalised and taken out.
    pub fn build(&mut self) -> (r: Result<Backend, Error>)
        ensures
            r matches Ok(b) ==> crate::path::is_root_form(b.root@),
            final(self).endpoint == old(self).endpoint,
            final(self).bucket == old(self).bucket,
            old(self).bucket is None ==> (r matches Err(e) && e.kind == ErrorKind::BackendConfigInvalid && service_context(e, "obs"@)),
            old(self).bucket is Some && old(self).endpoint is None ==> (r matches Err(e) && e.kind == ErrorKind::BackendConfigInvalid
                && service_context(e, "obs"@)),
            (old(self).bucket is Some && old(self).endpoint is Some) ==> match uri_parts(old(self).endpoint->Some_0@) {
                None => r matches Err(e) && e.kind == ErrorKind::BackendConfigInvalid && service_context(e, "obs"@),
                Some((scheme, host)) => r matches Ok(b) && {
                    let (endpoint, signer_bucket) = endpoint_for(old(self).bucket->Some_0@, scheme, host);
                    &&& b.endpoint@ == endpoint
                    &&& b.signer_bucket@ == signer_bucket
                    &&& b.bucket@ == old(self).bucket->Some_0@
                    &&& b.root@ == normal_root(match opt_view(old(self).root) { Some(v) => v, None => Seq::empty() })
                    &&& opt_view(b.access_key_id) == opt_view(old(self).access_key_id)
                    &&& opt_view(b.secret_access_key) == opt_view(old(self).secret_access_key)
                },
            },
    {
        let root_in = match self.root.take() {
            Some(v) => v,
            None => String::new(),
        };
        let root = normalize_root(root_in.as_str());
        let bucket = match &self.bucket {
            Some(b) => b.clone(),
            None => {
                return Err(Error::new(ErrorKind::BackendConfigInvalid, "bucket is empty")
                    .with_context("service", "obs"));
            },
        };
        let parts = match &self.endpoint {
            Some(ep) => parse_uri(ep.as_str()),
            None => {
                return Err(Error::new(ErrorKind::BackendConfigInvalid, "endpoint is empty")
                    .with_context("service", "obs"));
            },
        };
        let (scheme, host) = match parts {
            Some(p) => p,
            None => {
                return Err(Error::new(ErrorKind::BackendConfigInvalid, "endpoint is invalid")
                    .with_context("service", "obs"));
            },
        };
        let (endpoint, signer_bucket) = resolve_endpoint(bucket.as_str(), scheme, host);
        let access_key_id = match &self.access_key_id {
            Some(v) => Some(v.clone()),
            None => None,
        };
        let secret_access_key = match &self.secret_access_key {
            Some(v) => Some(v.clone()),
            None => None,
        };
        Ok(Backend { root, endpoint, bucket, signer_bucket, access_key_id, secret_access_key })
    }
}

/// The scheme and the host of an endpoint URI, when the text parses as one.
pub uninterp spec fn uri_parts(s: Seq<char>) -> Option<(Option<Seq<char>>, Option<Seq<char>>)>;

/// Relies on http's `Uri` parsing, `Uri::scheme_str` and `Uri::host`: the
/// parts depend on the text alone.
#[verifier::external_body]
fn parse_uri(s: &str) -> (r: Option<(Option<String>, Option<String>)>)
    ensures
        match (r, uri_parts(s@)) {
            (None, None) => true,
            (Some((a, b)), Some((x, y))) => opt_view(a) == x && opt_view(b) == y,
            _ => false,
        },
{
    s.parse::<http::Uri>().ok().map(|u| (u.scheme_str().map(|v| v.to_string()), u.host().map(|v| v.to_string())))
}

/// A host of the service's default domain.
pub open spec fn is_default_domain(host: Seq<char>) -> bool {
    is_prefix("obs."@, host) && is_suffix(".myhuaweicloud.com"@, host)
}

/// The endpoint URL and the name the signer uses as bucket, from the bucket
/// and the endpoint's parts. The scheme defaults to `https`; on the default
/// domain the bucket goes in front of the host and signs as itself, on a
/// user domain the host is used as is and signs as the bucket.
pub open spec fn endpoint_for(bucket: Seq<char>, scheme: Option<Seq<char>>, host: Option<Seq<char>>) -> (Seq<char>, Seq<char>) {
    let s = match scheme { Some(s) => s, None => "https"@ };
    let h = match host { Some(h) => h, None => Seq::empty() };
    if is_default_domain(h) {
        (s + "://"@ + bucket + seq!['.'] + h, bucket)
    } else {
        (s + "://"@ + h, h)
    }
}

/// The endpoint URL and the signer's bucket name, from the endpoint's parts.
pub fn resolve_endpoint(bucket: &str, scheme: Option<String>, host: Option<String>) -> (r: (String, String))
    ensures
        (r.0@, r.1@) == endpoint_for(bucket@, opt_view(scheme), opt_view(host)),
{
    let s = match scheme {
        Some(s) => s,
        None => owned("https"),
    };
    let h = match host {
        Some(h) => h,
        None => String::new(),
    };
    let hc = chars_of(h.as_str());
    let default_domain = chars_start_with(&hc, &chars_of("obs.")) && chars_end_with(&hc, &chars_of(".myhuaweicloud.com"));
    let mut out = chars_of(s.as_str());
    push_chars(&mut out, &chars_of("://"));
    if default_domain {
        push_chars(&mut out, &chars_of(bucket));
        out.push('.');
        push_chars(&mut out, &hc);
        assert(out@ =~= endpoint_for(bucket@, opt_view(Some(s)), opt_view(Some(h))).0);
        (string_from_chars(&out), owned(bucket))
    } else {
        push_chars(&mut out, &hc);
        (string_from_chars(&out), h)
    }
}

/// The object-store backend.
#[derive(Debug)]
pub struct Backend {
    pub root: String,
    pub endpoint: String,
    pub bucket: String,
    /// What the request signer takes as the bucket name.
    pub signer_bucket: String,
    pub access_key_id: Option<String>,
    pub secret_access_key: Option<String>,
}

impl Accessor for Backend {
    /// Read, write and list, with streamable readers; the name is the bucket.
    open spec fn spec_metadata(&self) -> AccessorInfo {
        AccessorInfo {
            scheme: Scheme::Obs,
            root: self.root@,
            name: self.bucket@,
            capabilities: Capabilities { read: true, write: true, list: true, presign: false, multipart: false, blocking: false },
            hints: Hints { read_is_seekable: false, read_is_streamable: true },
        }
    }

    fn metadata(&self) -> (r: AccessorMetadata) {
        let mut caps = Capabilities::none();
        caps.read = true;
        caps.write = true;
        caps.list = true;
        AccessorMetadata::new(
            Scheme::Obs,
            self.root.as_str(),
            self.bucket.as_str(),
            caps,
            Hints { read_is_seekable: false, read_is_streamable: true },
        )
    }
}

/// A create or write reply: 200 and 201 are success.
pub fn put_reply(status: u16) -> (r: Result<(), Error>)
    ensures
        r is Ok <==> (status == 200 || status == 201),
        r matches Err(e) ==> e.kind == status_kind(status),
{
    if status == 200 || status == 201 { Ok(()) } else { Err(error_from_status(status)) }
}

/// A delete reply: 200, 202, 204 and 404 (nothing to delete) are success.
pub fn delete_reply(status: u16) -> (r: Result<(), Error>)
    ensures
        r is Ok <==> (status == 200 || status == 202 || status == 204 || status == 404),
        r matches Err(e) ==> e.kind == status_kind(status),
{
    if status == 200 || status == 202 || status == 204 || status == 404 { Ok(()) } else { Err(error_from_status(status)) }
}

/// A stat's outcome: the root is a directory without asking; 200 gives the
/// metadata the headers describe; a 404 for a key ending in `/` is a
/// directory encoded in keys; another status fails.
pub fn stat_reply(path: &str, status: u16, headers: &HeaderList) -> (r: Result<ObjectMetadata, Error>)
    ensures
        path@ == seq!['/'] ==> (r matches Ok(m) && m.mode == ObjectMode::DIR),
        path@ != seq!['/'] && status == 200 ==> (r is Ok <==> headers_parse(headers.entries@)),
        path@ != seq!['/'] && status == 200 ==> (r matches Ok(m) ==> m.mode == mode_of_path(path@)),
        path@ != seq!['/'] && status == 404 && ends_in_slash(path@) ==> (r matches Ok(m) && m.mode == ObjectMode::DIR),
        path@ != seq!['/'] && status != 200 && !(status == 404 && ends_in_slash(path@))
            ==> (r matches Err(e) && e.kind == status_kind(status)),
{
    proof {
        reveal_strlit("/");
        assert("/"@ =~= seq!['/']);
    }
    if same_text(path, "/") {
        return Ok(dir_metadata());
    }
    if status == 200 {
        parse_into_object_metadata(path, headers)
    } else if status == 404 && ends_with_slash(path) {
        Ok(dir_metadata())
    } else {
        Err(error_from_status(status))
    }
}


impl Default for Builder {
    /// A builder with nothing set.
    fn default() -> (r: Builder)
        ensures
            r.root is None && r.endpoint is None && r.access_key_id is None
                && r.secret_access_key is None && r.bucket is None,
    {
        Builder::new()
    }
}

} // verus!
