//! The GitHub Actions cache backend: its builder, and the decisions of its
//! reserve → upload → commit writes, its reads and its stats.

use vstd::prelude::*;
use crate::accessor::Accessor;
use crate::error::{Error, ErrorKind};
use crate::header::{headers_parse, parse_into_object_metadata, HeaderList};
use crate::metadata::{mode_of_path, AccessorInfo, AccessorMetadata, Capabilities, Hints, ObjectMetadata, ObjectMode, Scheme};
use crate::path::{abs_path, build_abs_path, is_root_form, normal_root, normalize_root};
use crate::range::{decimal, push_decimal, content_range_header, is_full_range, range_header, renderable, BytesContentRange, BytesRange};
use crate::services::fs::opt_view;
use crate::services::reply::{dir_metadata, error_from_status, is_success, status_kind};
use crate::text::{chars_of, ends_in_slash, ends_with_slash, owned, push_chars, same_text, string_from_chars};

verus! {

/// Builder of the cache backend.
#[derive(Debug)]
pub struct Builder {
    pub root: Option<String>,
    pub version: Option<String>,
    pub enable_create_simulation: bool,
}

/// What the runner's environment provides to the backend.
#[derive(Debug)]
pub struct GhacEnv {
    /// The cache service's base URL.
    pub cache_url: Option<String>,
    /// The runtime token for the cache service.
    pub runtime_token: Option<String>,
    /// The GitHub API URL.
    pub api_url: Option<String>,
    /// The workflow's GitHub token.
    pub api_token: Option<String>,
    /// The repository the workflow runs for.
    pub repo: Option<String>,
}

/// The value of the last pair with key `k` and a non-empty value among the
/// first `n` pairs.
pub open spec fn last_nonempty(it: Seq<(String, String)>, k: Seq<char>, n: int) -> Option<Seq<char>>
    decreases n,
{
    if n <= 0 {
        None
    } else if it[n - 1].0@ == k && it[n - 1].1@.len() > 0 {
        Some(it[n - 1].1@)
    } else {
        last_nonempty(it, k, n - 1)
    }
}

/// Some pair with key `k` among the first `n` has a non-empty value.
pub open spec fn any_nonempty(it: Seq<(String, String)>, k: Seq<char>, n: int) -> bool
    decreases n,
{
    n > 0 && ((it[n - 1].0@ == k && it[n - 1].1@.len() > 0) || any_nonempty(it, k, n - 1))
}

/// A setter that keeps the old value for the empty string.
pub open spec fn kept_unless_empty(old_v: Option<String>, v: Seq<char>) -> Option<Seq<char>> {
    if v.len() == 0 { opt_view(old_v) } else { Some(v) }
}

impl Builder {
    /// A builder with nothing set and simulation off.
    pub fn new() -> (r: Builder)
        ensures
            r.root is None,
            r.version is None,
            !r.enable_create_simulation,
    {
        Builder { root: None, version: None, enable_create_simulation: false }
    }

    /// Takes its options from key/value pairs; other keys are ignored and a
    /// later pair wins over an earlier one, as the setters decide.
    pub fn from_iter(it: Vec<(String, String)>) -> (r: Builder)
        ensures
            opt_view(r.root) == last_nonempty(it@, "root"@, it@.len() as int),
            opt_view(r.version) == last_nonempty(it@, "version"@, it@.len() as int),
            r.enable_create_simulation == any_nonempty(it@, "enable_create_simulation"@, it@.len() as int),
    {
        proof {
            reveal_strlit("root");
            reveal_strlit("version");
            reveal_strlit("enable_create_simulation");
            assert("root"@ != "version"@) by { assert("root"@.len() != "version"@.len()); }
            assert("root"@ != "enable_create_simulation"@) by { assert("root"@.len() != "enable_create_simulation"@.len()); }
            assert("version"@ != "enable_create_simulation"@) by { assert("version"@.len() != "enable_create_simulation"@.len()); }
        }
        let mut b = Builder::new();
        let mut i: usize = 0;
        while i < it.len()
            invariant
                i <= it@.len(),
                "root"@ != "version"@,
                "root"@ != "enable_create_simulation"@,
                "version"@ != "enable_create_simulation"@,
                opt_view(b.root) == last_nonempty(it@, "root"@, i as int),
                opt_view(b.version) == last_nonempty(it@, "version"@, i as int),
                b.enable_create_simulation == any_nonempty(it@, "enable_create_simulation"@, i as int),
            decreases it@.len() - i,
        {
            let (k, v) = (&it[i].0, &it[i].1);
            if same_text(k.as_str(), "root") {
                b.root(v.as_str());
            } else if same_text(k.as_str(), "version") {
                b.version(v.as_str());
            } else if same_text(k.as_str(), "enable_create_simulation") {
                if v.as_str().unicode_len() > 0 {
                    b.enable_create_simulation();
                }
            }
            i = i + 1;
        }
        b
    }

    /// Sets the root; the empty string leaves it as it was.
    pub fn root(&mut self, root: &str) -> (r: &mut Self)
        ensures
            opt_view(r.root) == kept_unless_empty(old(self).root, root@),
            r.version == old(self).version,
            r.enable_create_simulation == old(self).enable_create_simulation,
            *final(self) == *final(r),
    {
        if root.unicode_len() > 0 {
            self.root = Some(owned(root));
        }
        self
    }

    /// Sets the cache version, the namespace of the keys; the empty string
    /// leaves it as it was.
    pub fn version(&mut self, version: &str) -> (r: &mut Self)
        ensures
            opt_view(r.version) == kept_unless_empty(old(self).version, version@),
            r.root == old(self).root,
            r.enable_create_simulation == old(self).enable_create_simulation,
            *final(self) == *final(r),
    {
        if version.unicode_len() > 0 {
            self.version = Some(owned(version));
        }
        self
    }

    /// Turns on empty-file simulation: an empty file is stored as one byte,
    /// and a one-byte object reads back as empty.
    pub fn enable_create_simulation(&mut self) -> (r: &mut Self)
        ensures
            r.enable_create_simulation,
            r.root == old(self).root,
            r.version == old(self).version,
            *final(self) == *final(r),
    {
        self.enable_create_simulation = true;
        self
    }

    /// The backend this builder describes in the given environment. The
    /// cache URL and the runtime token are required; the version defaults
    /// to `opendal`, the API URL to `https://api.github.com`, the token and
    /// repository to empty. The root is normalised and taken out.
    pub fn build(&mut self, env: GhacEnv) -> (r: Result<Backend, Error>)
        ensures
            r matches Ok(b) ==> crate::path::is_root_form(b.root@),
            final(self).root is None,
            final(self).version == old(self).version,
            final(self).enable_create_simulation == old(self).enable_create_simulation,
            (env.cache_url is None || env.runtime_token is None) <==> r is Err,
            r matches Err(e) ==> e.kind == ErrorKind::BackendConfigInvalid,
            r matches Ok(b) ==> {
                &&& b.root@ == normal_root(match opt_view(old(self).root) { Some(v) => v, None => Seq::empty() })
                &&& b.enable_create_simulation == old(self).enable_create_simulation
                &&& Some(b.cache_url@) == opt_view(env.cache_url)
                &&& Some(b.cache_token@) == opt_view(env.runtime_token)
                &&& b.version@ == match opt_view(old(self).version) { Some(v) => v, None => "opendal"@ }
                &&& b.api_url@ == match opt_view(env.api_url) { Some(v) => v, None => "https://api.github.com"@ }
                &&& b.api_token@ == match opt_view(env.api_token) { Some(v) => v, None => Seq::empty() }
                &&& b.repo@ == match opt_view(env.repo) { Some(v) => v, None => Seq::empty() }
            },
    {
        let root_in = match self.root.take() {
            Some(v) => v,
            None => String::new(),
        };
        let root = normalize_root(root_in.as_str());
        let cache_url = match env.cache_url {
            Some(v) => v,
            None => {
                return Err(Error::new(
                    ErrorKind::BackendConfigInvalid,
                    "ACTIONS_CACHE_URL not found, maybe not in github action environment?",
                ).with_operation("Builder::build"));
            },
        };
        let cache_token = match env.runtime_token {
            Some(v) => v,
            None => {
                return Err(Error::new(
                    ErrorKind::BackendConfigInvalid,
                    "ACTIONS_RUNTIME_TOKEN not found, maybe not in github action environment?",
                ).with_operation("Builder::build"));
            },
        };
        let version = match &self.version {
            Some(v) => v.clone(),
            None => owned("opendal"),
        };
        let api_url = match env.api_url {
            Some(v) => v,
            None => owned("https://api.github.com"),
        };
        let api_token = match env.api_token {
            Some(v) => v,
            None => String::new(),
        };
        let repo = match env.repo {
            Some(v) => v,
            None => String::new(),
        };
        Ok(Backend {
            root,
            enable_create_simulation: self.enable_create_simulation,
            cache_url,
            cache_token,
            version,
            api_url,
            api_token,
            repo,
        })
    }
}

/// The cache backend.
#[derive(Debug)]
pub struct Backend {
    pub root: String,
    pub enable_create_simulation: bool,
    pub cache_url: String,
    pub cache_token: String,
    pub version: String,
    pub api_url: String,
    pub api_token: String,
    pub repo: String,
}

impl Accessor for Backend {
    /// Read and write, with streamable readers; the name is the cache version.
    open spec fn spec_metadata(&self) -> AccessorInfo {
        AccessorInfo {
            scheme: Scheme::Ghac,
            root: self.root@,
            name: self.version@,
            capabilities: Capabilities { read: true, write: true, list: false, presign: false, multipart: false, blocking: false },
            hints: Hints { read_is_seekable: false, read_is_streamable: true },
        }
    }

    fn metadata(&self) -> (r: AccessorMetadata) {
        let mut caps = Capabilities::none();
        caps.read = true;
        caps.write = true;
        AccessorMetadata::new(
            Scheme::Ghac,
            self.root.as_str(),
            self.version.as_str(),
            caps,
            Hints { read_is_seekable: false, read_is_streamable: true },
        )
    }
}

/// The next step of a create (and of the write it simulates).
#[derive(Debug)]
pub enum CreateStep {
    /// Nothing more to do: the object exists.
    Done,
    /// Reserve a cache entry of this many bytes.
    Reserve(u64),
    /// Upload this many bytes to the reserved entry.
    Upload(i64, u64),
    /// Commit the entry with this size.
    Commit(i64, u64),
    /// The create failed.
    Fail(Error),
}

/// The `Content-Range` of an upload of `size` bytes: `bytes 0-(size-1)/*`.
pub fn upload_content_range(size: u64) -> (r: String)
    requires
        size > 0,
    ensures
        r@ == content_range_header(BytesContentRange { start: Some(0), end: Some((size - 1) as u64), total: None }),
{
    BytesContentRange::new().with_range(0, size - 1).to_header()
}

impl Backend {
    /// The first step of a create: a directory needs nothing, a file needs
    /// simulation (the service refuses empty uploads) and then a one-byte
    /// reservation.
    pub fn create_start(&self, path: &str) -> (r: CreateStep)
        ensures
            ends_in_slash(path@) ==> r is Done,
            !ends_in_slash(path@) && !self.enable_create_simulation ==> (r matches CreateStep::Fail(e) && e.kind == ErrorKind::Unsupported),
            !ends_in_slash(path@) && self.enable_create_simulation ==> r matches CreateStep::Reserve(1),
    {
        if ends_with_slash(path) {
            CreateStep::Done
        } else if !self.enable_create_simulation {
            CreateStep::Fail(Error::new(ErrorKind::Unsupported, "ghac service doesn't support create empty file"))
        } else {
            CreateStep::Reserve(1)
        }
    }

    /// After the reservation of `size` bytes: on success upload to the cache
    /// id the reply gave; a conflict means the object exists, which a create
    /// accepts; another status fails.
    pub fn on_reserve(&self, size: u64, status: u16, cache_id: Option<i64>, tolerate_conflict: bool) -> (r: CreateStep)
        ensures
            is_success(status) ==> match cache_id {
                Some(id) => (r matches CreateStep::Upload(i, s) && i == id && s == size),
                None => (r matches CreateStep::Fail(e) && e.kind == ErrorKind::Unexpected),
            },
            !is_success(status) && status == 409 && tolerate_conflict ==> r is Done,
            !is_success(status) && !(status == 409 && tolerate_conflict) ==> (r matches CreateStep::Fail(e) && e.kind == status_kind(status)),
    {
        if 200 <= status && status < 300 {
            match cache_id {
                Some(id) => CreateStep::Upload(id, size),
                None => CreateStep::Fail(Error::new(ErrorKind::Unexpected, "deserialize json")),
            }
        } else if status == 409 && tolerate_conflict {
            CreateStep::Done
        } else {
            CreateStep::Fail(error_from_status(status).with_operation("Backend::ghac_reserve"))
        }
    }

    /// After the upload: on success commit, otherwise fail.
    pub fn on_upload(&self, cache_id: i64, size: u64, status: u16) -> (r: CreateStep)
        ensures
            is_success(status) ==> (r matches CreateStep::Commit(i, s) && i == cache_id && s == size),
            !is_success(status) ==> (r matches CreateStep::Fail(e) && e.kind == status_kind(status)),
    {
        if 200 <= status && status < 300 {
            CreateStep::Commit(cache_id, size)
        } else {
            CreateStep::Fail(error_from_status(status).with_operation("Backend::ghac_upload"))
        }
    }

    /// After the commit: on success the object is visible.
    pub fn on_commit(&self, status: u16) -> (r: CreateStep)
        ensures
            is_success(status) ==> r is Done,
            !is_success(status) ==> (r matches CreateStep::Fail(e) && e.kind == status_kind(status)),
    {
        if 200 <= status && status < 300 {
            CreateStep::Done
        } else {
            CreateStep::Fail(error_from_status(status).with_operation("Backend::ghac_commit"))
        }
    }

    /// The `Range` header of the archive fetch: none for the whole object;
    /// a suffix range is refused, as the storage behind the archive URL
    /// does not serve one.
    pub fn location_range_header(&self, range: BytesRange) -> (r: Result<Option<String>, Error>)
        requires
            renderable(range),
        ensures
            is_full_range(range) ==> r matches Ok(None),
            !is_full_range(range) && range.offset is None && range.size is Some
                ==> (r matches Err(e) && e.kind == ErrorKind::Unsupported),
            !is_full_range(range) && !(range.offset is None && range.size is Some)
                ==> (r matches Ok(Some(h)) && h@ == range_header(range)),
    {
        if range.is_full() {
            Ok(None)
        } else if range.is_suffix() {
            Err(Error::new(ErrorKind::Unsupported, "ghac doesn't support read with suffix range"))
        } else {
            Ok(Some(range.to_header()))
        }
    }

    /// A stat's first step, the cache query. The root is a directory without
    /// asking; a 200 goes on to the archive; a 204 for a path ending in `/`
    /// is a directory; another status fails. `Ok(None)` means go on.
    pub fn stat_query_reply(&self, path: &str, status: u16) -> (r: Result<Option<ObjectMetadata>, Error>)
        ensures
            path@ == seq!['/'] ==> (r matches Ok(Some(m)) && m.mode == ObjectMode::DIR),
            path@ != seq!['/'] && status == 200 ==> r matches Ok(None),
            path@ != seq!['/'] && status == 204 && ends_in_slash(path@) ==> (r matches Ok(Some(m)) && m.mode == ObjectMode::DIR),
            path@ != seq!['/'] && status != 200 && !(status == 204 && ends_in_slash(path@))
                ==> (r matches Err(e) && e.kind == status_kind(status)),
    {
        proof {
            reveal_strlit("/");
            assert("/"@ =~= seq!['/']);
        }
        if same_text(path, "/") {
            Ok(Some(dir_metadata()))
        } else if status == 200 {
            Ok(None)
        } else if status == 204 && ends_with_slash(path) {
            Ok(Some(dir_metadata()))
        } else {
            Err(error_from_status(status))
        }
    }

    /// A stat's second step, the archive's headers. With simulation on, a
    /// length of one byte reads as zero; a real one-byte object is kept
    /// when simulation is off.
    pub fn stat_head_reply(&self, path: &str, status: u16, headers: &HeaderList) -> (r: Result<ObjectMetadata, Error>)
        ensures
            status != 200 ==> (r matches Err(e) && e.kind == status_kind(status)),
            status == 200 ==> (r is Ok <==> headers_parse(headers.entries@)),
            status == 200 ==> (r matches Ok(m) ==> {
                &&& m.mode == mode_of_path(path@)
                &&& m.content_length == (match parse_into_object_metadata_length(headers) {
                    Some(1) => if self.enable_create_simulation { Some(0u64) } else { Some(1u64) },
                    other => other,
                })
            }),
    {
        if status != 200 {
            return Err(error_from_status(status));
        }
        match parse_into_object_metadata(path, headers) {
            Ok(mut m) => {
                if self.enable_create_simulation && m.content_length_raw() == Some(1) {
                    m.set_content_length(0);
                }
                Ok(m)
            },
            Err(e) => Err(e),
        }
    }

    /// A delete needs the workflow's token.
    pub fn delete_check(&self) -> (r: Result<(), Error>)
        ensures
            r is Ok <==> self.api_token@.len() > 0,
            r matches Err(e) ==> e.kind == ErrorKind::ObjectPermissionDenied,
    {
        if self.api_token.as_str().unicode_len() == 0 {
            Err(Error::new(ErrorKind::ObjectPermissionDenied, "github token is not configured, delete is permission denied"))
        } else {
            Ok(())
        }
    }

    /// A delete's reply: success, or not found (nothing to delete).
    pub fn delete_reply(&self, status: u16) -> (r: Result<(), Error>)
        ensures
            r is Ok <==> (is_success(status) || status == 404),
            r matches Err(e) ==> e.kind == status_kind(status),
    {
        if (200 <= status && status < 300) || status == 404 {
            Ok(())
        } else {
            Err(error_from_status(status))
        }
    }
}

/// The content length the standard headers give.
pub open spec fn parse_into_object_metadata_length(headers: &HeaderList) -> Option<u64> {
    match crate::header::text_value(headers.entries@, "content-length"@) {
        Some(t) => crate::range::u64_of(t),
        None => None,
    }
}


impl Default for Builder {
    /// A builder with nothing set and simulation off.
    fn default() -> (r: Builder)
        ensures
            r.root is None,
            r.version is None,
            !r.enable_create_simulation,
    {
        Builder::new()
    }
}

/// The cache service's API path under its base URL.
pub open spec fn cache_api(cache_url: Seq<char>) -> Seq<char> {
    cache_url + "_apis/artifactcache/caches"@
}

/// A signed integer in decimal.
pub open spec fn signed_decimal(n: i64) -> Seq<char> {
    if n < 0 { seq!['-'] + decimal((-(n as int)) as nat) } else { decimal(n as nat) }
}

/// The URL of one reserved cache entry.
pub open spec fn cache_entry_url(cache_url: Seq<char>, cache_id: i64) -> Seq<char> {
    cache_api(cache_url) + seq!['/'] + signed_decimal(cache_id)
}

/// The value of an `Authorization` header carrying `token`.
pub open spec fn bearer(token: Seq<char>) -> Seq<char> {
    "Bearer "@ + token
}

/// The `Accept` header value the cache service asks for.
pub open spec fn cache_accept() -> Seq<char> {
    "application/json;api-version=6.0-preview.1"@
}

/// The reserve request: `POST` to the cache API, with the entry's key,
/// version and size as its JSON body.
#[derive(Debug)]
pub struct ReserveRequest {
    pub url: String,
    pub authorization: String,
    pub accept: &'static str,
    pub key: String,
    pub version: String,
    pub cache_size: u64,
}

/// The upload request: `PATCH` to the entry, with the content's length and
/// range; the body is the content.
#[derive(Debug)]
pub struct UploadRequest {
    pub url: String,
    pub authorization: String,
    pub accept: &'static str,
    pub content_length: u64,
    pub content_range: String,
}

/// The commit request: `POST` to the entry, with the final size as its JSON body.
#[derive(Debug)]
pub struct CommitRequest {
    pub url: String,
    pub authorization: String,
    pub accept: &'static str,
    pub size: u64,
}

/// Appends `n` in decimal, with a `-` when negative.
fn push_signed_decimal(v: &mut Vec<char>, n: i64)
    ensures
        final(v)@ == old(v)@ + signed_decimal(n),
{
    if n < 0 {
        v.push('-');
        let a: u64 = ((-(n + 1)) as u64) + 1;
        assert(a as int == -(n as int));
        push_decimal(v, a);
        assert(v@ =~= old(v)@ + signed_decimal(n));
    } else {
        push_decimal(v, n as u64);
    }
}

/// The body of the one-byte upload that stands for an empty file.
pub fn simulated_body() -> (r: Vec<u8>)
    ensures
        r@ == seq![0u8],
{
    let mut v: Vec<u8> = Vec::new();
    v.push(0u8);
    assert(v@ =~= seq![0u8]);
    v
}

impl Backend {
    /// The URL of the cache API.
    fn caches_url(&self) -> (r: Vec<char>)
        ensures
            r@ == cache_api(self.cache_url@),
    {
        let mut v = chars_of(self.cache_url.as_str());
        push_chars(&mut v, &chars_of("_apis/artifactcache/caches"));
        v
    }

    /// The `Authorization` value for the cache service.
    fn cache_authorization(&self) -> (r: String)
        ensures
            r@ == bearer(self.cache_token@),
    {
        let mut v = chars_of("Bearer ");
        push_chars(&mut v, &chars_of(self.cache_token.as_str()));
        string_from_chars(&v)
    }

    /// The reserve request for the object at `path` of `size` bytes: the key
    /// is the path under the root, the version the backend's.
    pub fn reserve_request(&self, path: &str, size: u64) -> (r: ReserveRequest)
        requires
            is_root_form(self.root@),
        ensures
            r.url@ == cache_api(self.cache_url@),
            r.authorization@ == bearer(self.cache_token@),
            r.accept@ == cache_accept(),
            r.key@ == abs_path(self.root@, path@),
            r.version@ == self.version@,
            r.cache_size == size,
    {
        ReserveRequest {
            url: string_from_chars(&self.caches_url()),
            authorization: self.cache_authorization(),
            accept: "application/json;api-version=6.0-preview.1",
            key: build_abs_path(self.root.as_str(), path),
            version: self.version.clone(),
            cache_size: size,
        }
    }

    /// The URL of the reserved entry `cache_id`.
    fn entry_url(&self, cache_id: i64) -> (r: String)
        ensures
            r@ == cache_entry_url(self.cache_url@, cache_id),
    {
        let mut v = self.caches_url();
        v.push('/');
        push_signed_decimal(&mut v, cache_id);
        assert(v@ =~= cache_entry_url(self.cache_url@, cache_id));
        string_from_chars(&v)
    }

    /// The upload request of `size` bytes to entry `cache_id`, covering
    /// bytes `0` to `size - 1`.
    pub fn upload_request(&self, cache_id: i64, size: u64) -> (r: UploadRequest)
        requires
            size > 0,
        ensures
            r.url@ == cache_entry_url(self.cache_url@, cache_id),
            r.authorization@ == bearer(self.cache_token@),
            r.accept@ == cache_accept(),
            r.content_length == size,
            r.content_range@ == content_range_header(BytesContentRange { start: Some(0), end: Some((size - 1) as u64), total: None }),
    {
        UploadRequest {
            url: self.entry_url(cache_id),
            authorization: self.cache_authorization(),
            accept: "application/json;api-version=6.0-preview.1",
            content_length: size,
            content_range: upload_content_range(size),
        }
    }

    /// The commit request of entry `cache_id` with its final size.
    pub fn commit_request(&self, cache_id: i64, size: u64) -> (r: CommitRequest)
        ensures
            r.url@ == cache_entry_url(self.cache_url@, cache_id),
            r.authorization@ == bearer(self.cache_token@),
            r.accept@ == cache_accept(),
            r.size == size,
    {
        CommitRequest {
            url: self.entry_url(cache_id),
            authorization: self.cache_authorization(),
            accept: "application/json;api-version=6.0-preview.1",
            size,
        }
    }
}

} // verus!
