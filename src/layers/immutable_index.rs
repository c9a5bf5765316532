//! An in-memory, immutable index of keys that gives listing to a backend
//! without it.

use vstd::prelude::*;
use crate::accessor::{Accessor, Layer};
use crate::entry::{ObjectEntry, ObjectPage};
use crate::error::{Error, ErrorKind};
use crate::metadata::{
    caps_union, mode_for_path, mode_of_path, AccessorInfo, AccessorMetadata, Capabilities, ObjectMetadata,
};
use crate::text::{
    chars_eq, chars_less, chars_of, ends_in_slash, ends_with_slash, key_less, lemma_less_irreflexive,
    lemma_less_total, lemma_less_transitive, chars_start_with, chars_take, find_char_from, is_prefix,
    lemma_find_from_bounds, same_text, slash_from, string_from_chars,
};

verus! {

/// The views of a sequence of strings.
pub open spec fn views(v: Seq<String>) -> Seq<Seq<char>> {
    v.map_values(|s: String| s@)
}

/// Key `k` lies under the query path `p`: it starts with `p` and is not `p` itself.
pub open spec fn listed_under(p: Seq<char>, k: Seq<char>) -> bool {
    is_prefix(p, k) && k != p
}

/// The entry that key `k` gives when `p` is listed: `k` up to and including
/// the first `/` after `p`, or `k` whole when there is none.
pub open spec fn index_entry(p: Seq<char>, k: Seq<char>) -> Seq<char> {
    if slash_from(k, p.len() as int) < k.len() {
        k.subrange(0, slash_from(k, p.len() as int) + 1)
    } else {
        k
    }
}

/// `e` is the entry of some key of `keys` that lies under `p`.
pub open spec fn entry_of_some_key(keys: Seq<Seq<char>>, p: Seq<char>, e: Seq<char>) -> bool {
    exists|k: int| 0 <= k < keys.len() && listed_under(p, keys[k]) && e == index_entry(p, keys[k])
}

/// The set of entries that listing `p` over `keys` gives.
pub open spec fn index_listing(keys: Set<Seq<char>>, p: Seq<char>) -> Set<Seq<char>> {
    keys.filter(|k: Seq<char>| listed_under(p, k)).map(|k: Seq<char>| index_entry(p, k))
}

/// The path that a listing query stands for: the root `/` is the empty prefix.
pub open spec fn query_prefix(path: Seq<char>) -> Seq<char> {
    if path == seq!['/'] { Seq::empty() } else { path }
}

/// Adds the list capability to a backend that has none, from a set of keys
/// the user supplies.
#[derive(Debug)]
pub struct ImmutableIndexLayer {
    pub set: Vec<String>,
}

impl ImmutableIndexLayer {
    /// The keys in the index.
    pub open spec fn keys(&self) -> Set<Seq<char>> {
        views(self.set@).to_set()
    }

    /// The index holds each key once, in lexicographic order.
    pub open spec fn wf(&self) -> bool {
        &&& views(self.set@).no_duplicates()
        &&& forall|i: int, j: int| 0 <= i < j < self.set@.len() ==> key_less(#[trigger] self.set@[i]@, #[trigger] self.set@[j]@)
    }

    /// An empty index.
    pub fn new() -> (r: ImmutableIndexLayer)
        ensures
            r.wf(),
            r.keys() == Set::<Seq<char>>::empty(),
    {
        let r = ImmutableIndexLayer { set: Vec::new() };
        assert(views(r.set@).to_set() =~= Set::<Seq<char>>::empty());
        r
    }

    /// Inserts a key at its place in the order; a key already present is
    /// not added twice.
    pub fn insert(&mut self, key: String)
        requires
            old(self).wf(),
        ensures
            final(self).wf(),
            final(self).keys() == old(self).keys().insert(key@),
    {
        let kc = chars_of(key.as_str());
        let mut p: usize = 0;
        while p < self.set.len() && chars_less(&chars_of(self.set[p].as_str()), &kc)
            invariant
                self.wf(),
                self.set@ == old(self).set@,
                p <= self.set@.len(),
                kc@ == key@,
                forall|k: int| 0 <= k < p ==> key_less(#[trigger] self.set@[k]@, key@),
            decreases self.set@.len() - p,
        {
            p = p + 1;
        }
        if p < self.set.len() && chars_eq(&chars_of(self.set[p].as_str()), &kc) {
            proof {
                assert(views(self.set@)[p as int] == key@);
                assert(views(self.set@).to_set().insert(key@) =~= views(self.set@).to_set());
            }
            return;
        }
        let ghost before = self.set@;
        proof {
            if p < before.len() {
                assert(!key_less(before[p as int]@, key@));
                assert(key@.subrange(0, 0) =~= before[p as int]@.subrange(0, 0));
                lemma_less_total(key@, before[p as int]@, 0);
                assert(key_less(key@, before[p as int]@));
                assert forall|k: int| p < k < before.len() implies key_less(key@, #[trigger] before[k]@) by {
                    lemma_less_transitive(key@, before[p as int]@, before[k]@, 0);
                }
            }
        }
        self.set.insert(p, key);
        proof {
            let after = self.set@;
            assert(after =~= before.insert(p as int, after[p as int]));
            assert forall|i: int, j: int| 0 <= i < j < after.len() implies key_less(#[trigger] after[i]@, #[trigger] after[j]@) by {
                if j < p {
                    assert(after[i] == before[i] && after[j] == before[j]);
                } else if j == p {
                    assert(after[i] == before[i]);
                } else if i < p {
                    assert(after[i] == before[i] && after[j] == before[j - 1]);
                    assert(key_less(before[i]@, key@));
                    assert(key_less(key@, before[j - 1]@));
                    lemma_less_transitive(before[i]@, key@, before[j - 1]@, 0);
                } else if i == p {
                    assert(after[j] == before[j - 1]);
                } else {
                    assert(after[i] == before[i - 1] && after[j] == before[j - 1]);
                }
            }
            let va = views(after);
            let vb = views(before);
            assert(va =~= vb.insert(p as int, key@));
            assert(va.no_duplicates()) by {
                assert forall|i: int, j: int| 0 <= i < va.len() && 0 <= j < va.len() && i != j implies va[i] != va[j] by {
                    if i < j {
                        assert(key_less(after[i]@, after[j]@));
                        lemma_less_irreflexive(after[i]@, 0);
                    } else {
                        assert(key_less(after[j]@, after[i]@));
                        lemma_less_irreflexive(after[j]@, 0);
                    }
                }
            }
            assert(va.to_set() =~= vb.to_set().insert(key@)) by {
                assert forall|x: Seq<char>| #[trigger] va.contains(x) <==> (vb.contains(x) || x == key@) by {
                    if va.contains(x) {
                        let j = choose|j: int| 0 <= j < va.len() && va[j] == x;
                        if j < p { assert(vb[j] == x); } else if j > p { assert(vb[j - 1] == x); }
                    }
                    if vb.contains(x) {
                        let j = choose|j: int| 0 <= j < vb.len() && vb[j] == x;
                        if j < p { assert(va[j] == x); } else { assert(va[j + 1] == x); }
                    }
                    if x == key@ { assert(va[p as int] == x); }
                }
            }
        }
    }

    /// Inserts each of the keys in turn.
    pub fn extend_iter(&mut self, keys: Vec<String>)
        requires
            old(self).wf(),
        ensures
            final(self).wf(),
            final(self).keys() == old(self).keys() + views(keys@).to_set(),
    {
        let mut i: usize = 0;
        while i < keys.len()
            invariant
                i <= keys@.len(),
                self.wf(),
                self.keys() == old(self).keys() + views(keys@.subrange(0, i as int)).to_set(),
            decreases keys@.len() - i,
        {
            let k = keys[i].clone();
            self.insert(k);
            proof {
                assert(views(keys@.subrange(0, i + 1)) =~= views(keys@.subrange(0, i as int)).push(keys@[i as int]@));
                assert(views(keys@.subrange(0, i + 1)).to_set() =~= views(keys@.subrange(0, i as int)).to_set().insert(keys@[i as int]@)) by {
                    let a = views(keys@.subrange(0, i as int));
                    let b = views(keys@.subrange(0, i + 1));
                    assert forall|x: Seq<char>| b.contains(x) <==> (a.contains(x) || x == keys@[i as int]@) by {
                        if b.contains(x) {
                            let j = choose|j: int| 0 <= j < b.len() && b[j] == x;
                            if j < a.len() { assert(a[j] == x); }
                        }
                        if a.contains(x) {
                            let j = choose|j: int| 0 <= j < a.len() && a[j] == x;
                            assert(b[j] == x);
                        }
                        if x == keys@[i as int]@ { assert(b[i as int] == x); }
                    }
                }
            }
            i = i + 1;
        }
        assert(keys@.subrange(0, keys@.len() as int) =~= keys@);
    }
}

/// An accessor over `inner` that answers listing from an index of keys.
#[derive(Debug)]
pub struct ImmutableIndexAccessor<A> {
    pub inner: A,
    pub set: Vec<String>,
}

/// A copy of a vector of strings.
fn copy_strings(v: &Vec<String>) -> (r: Vec<String>)
    ensures
        r@ == v@,
{
    let mut r: Vec<String> = Vec::new();
    let mut i: usize = 0;
    while i < v.len()
        invariant
            i <= v@.len(),
            r@ == v@.subrange(0, i as int),
        decreases v@.len() - i,
    {
        r.push(v[i].clone());
        i = i + 1;
        assert(r@ =~= v@.subrange(0, i as int));
    }
    assert(v@.subrange(0, v@.len() as int) =~= v@);
    r
}

impl<A: Accessor> Layer<A> for ImmutableIndexLayer {
    type LayeredAccessor = ImmutableIndexAccessor<A>;

    fn layer(&self, inner: A) -> (r: ImmutableIndexAccessor<A>)
        ensures
            r.inner == inner,
            r.set@ == self.set@,
    {
        ImmutableIndexAccessor { inner, set: copy_strings(&self.set) }
    }
}

impl<A: Accessor> Accessor for ImmutableIndexAccessor<A> {
    open spec fn spec_metadata(&self) -> AccessorInfo {
        AccessorInfo {
            capabilities: caps_union(
                self.inner.spec_metadata().capabilities,
                Capabilities { read: false, write: false, list: true, presign: false, multipart: false, blocking: false },
            ),
            ..self.inner.spec_metadata()
        }
    }

    /// The inner accessor's description with the list capability added.
    fn metadata(&self) -> (r: AccessorMetadata) {
        let m = self.inner.metadata();
        let mut add = Capabilities::none();
        add.list = true;
        AccessorMetadata { capabilities: m.capabilities.union(add), ..m }
    }
}

/// Whether `v` holds a vector equal to `x`.
fn contains_chars(v: &Vec<Vec<char>>, x: &Vec<char>) -> (r: bool)
    ensures
        r == exists|i: int| 0 <= i < v@.len() && (#[trigger] v@[i])@ == x@,
{
    let mut i: usize = 0;
    while i < v.len()
        invariant
            i <= v@.len(),
            forall|k: int| 0 <= k < i ==> (#[trigger] v@[k])@ != x@,
        decreases v@.len() - i,
    {
        if chars_eq(&v[i], x) {
            return true;
        }
        i = i + 1;
    }
    false
}

impl<A> ImmutableIndexAccessor<A> {
    /// The entries that listing `path` gives: each key under `path` up to the
    /// first `/` after it, each entry once.
    pub fn children(&self, path: &str) -> (r: Vec<String>)
        ensures
            views(r@).no_duplicates(),
            forall|e: Seq<char>| #[trigger] views(r@).contains(e) <==> entry_of_some_key(views(self.set@), path@, e),
    {
        let p = chars_of(path);
        let mut res: Vec<Vec<char>> = Vec::new();
        let mut i: usize = 0;
        while i < self.set.len()
            invariant
                p@ == path@,
                i <= self.set@.len(),
                forall|a: int, b: int| 0 <= a < res@.len() && 0 <= b < res@.len() && a != b ==> res@[a]@ != res@[b]@,
                forall|j: int| 0 <= j < res@.len() ==> exists|k: int|
                    0 <= k < self.set@.len() && listed_under(path@, #[trigger] self.set@[k]@)
                        && (#[trigger] res@[j])@ == index_entry(path@, self.set@[k]@),
                forall|k: int| 0 <= k < i && listed_under(path@, #[trigger] self.set@[k]@)
                    ==> exists|j: int| 0 <= j < res@.len() && (#[trigger] res@[j])@ == index_entry(path@, self.set@[k]@),
            decreases self.set@.len() - i,
        {
            let key = chars_of(self.set[i].as_str());
            let ghost old_res = res@;
            if chars_start_with(&key, &p) && !chars_eq(&key, &p) {
                let idx = find_char_from(&key, p.len(), '/');
                proof {
                    lemma_find_from_bounds(key@, p@.len() as int, '/');
                }
                let entry = if idx < key.len() { chars_take(&key, idx + 1) } else { key };
                assert(entry@ == index_entry(path@, self.set@[i as int]@));
                if !contains_chars(&res, &entry) {
                    res.push(entry);
                    proof {
                        assert forall|j: int| 0 <= j < res@.len() implies exists|k: int|
                            0 <= k < self.set@.len() && listed_under(path@, #[trigger] self.set@[k]@)
                                && (#[trigger] res@[j])@ == index_entry(path@, self.set@[k]@) by {
                            if j < old_res.len() {
                                assert(res@[j] == old_res[j]);
                            } else {
                                assert(res@[j]@ == index_entry(path@, self.set@[i as int]@));
                                assert(listed_under(path@, self.set@[i as int]@));
                            }
                        }
                        assert forall|k: int| 0 <= k < i + 1 && listed_under(path@, #[trigger] self.set@[k]@)
                            implies exists|j: int| 0 <= j < res@.len() && (#[trigger] res@[j])@ == index_entry(path@, self.set@[k]@) by {
                            if k < i {
                                let j = choose|j: int| 0 <= j < old_res.len() && (#[trigger] old_res[j])@ == index_entry(path@, self.set@[k]@);
                                assert(res@[j] == old_res[j]);
                            } else {
                                assert(res@[old_res.len() as int]@ == index_entry(path@, self.set@[k]@));
                            }
                        }
                        assert forall|a: int, b: int| 0 <= a < res@.len() && 0 <= b < res@.len() && a != b implies res@[a]@ != res@[b]@ by {
                            if a < old_res.len() && b < old_res.len() {
                                assert(res@[a] == old_res[a]);
                                assert(res@[b] == old_res[b]);
                            } else if a < old_res.len() {
                                assert(res@[a] == old_res[a]);
                            } else if b < old_res.len() {
                                assert(res@[b] == old_res[b]);
                            }
                        }
                    }
                } else {
                    proof {
                        let j = choose|j: int| 0 <= j < res@.len() && (#[trigger] res@[j])@ == entry@;
                        assert forall|k: int| 0 <= k < i + 1 && listed_under(path@, #[trigger] self.set@[k]@)
                            implies exists|j: int| 0 <= j < res@.len() && (#[trigger] res@[j])@ == index_entry(path@, self.set@[k]@) by {
                            if k == i {
                                assert(res@[j]@ == index_entry(path@, self.set@[k]@));
                            }
                        }
                    }
                }
            } else {
                proof {
                    assert(!listed_under(path@, self.set@[i as int]@));
                    assert forall|k: int| 0 <= k < i + 1 && listed_under(path@, #[trigger] self.set@[k]@)
                        implies exists|j: int| 0 <= j < res@.len() && (#[trigger] res@[j])@ == index_entry(path@, self.set@[k]@) by {
                        assert(k != i);
                    }
                }
            }
            i = i + 1;
        }
        let mut out: Vec<String> = Vec::new();
        let mut j: usize = 0;
        while j < res.len()
            invariant
                j <= res@.len(),
                out@.len() == j,
                forall|a: int| 0 <= a < j ==> (#[trigger] out@[a])@ == res@[a]@,
            decreases res@.len() - j,
        {
            out.push(string_from_chars(&res[j]));
            j = j + 1;
        }
        proof {
            assert forall|a: int, b: int| 0 <= a < views(out@).len() && 0 <= b < views(out@).len() && a != b
                implies views(out@)[a] != views(out@)[b] by {
                assert(out@[a]@ == res@[a]@);
                assert(out@[b]@ == res@[b]@);
            }
            assert forall|e: Seq<char>| #[trigger] views(out@).contains(e) <==> entry_of_some_key(views(self.set@), path@, e) by {
                if views(out@).contains(e) {
                    let jj = choose|jj: int| 0 <= jj < views(out@).len() && views(out@)[jj] == e;
                    assert(out@[jj]@ == res@[jj]@);
                    let k = choose|k: int| 0 <= k < self.set@.len() && listed_under(path@, #[trigger] self.set@[k]@)
                        && res@[jj]@ == index_entry(path@, self.set@[k]@);
                    assert(views(self.set@)[k] == self.set@[k]@);
                }
                if entry_of_some_key(views(self.set@), path@, e) {
                    let k = choose|k: int| 0 <= k < views(self.set@).len() && listed_under(path@, views(self.set@)[k])
                        && e == index_entry(path@, views(self.set@)[k]);
                    assert(views(self.set@)[k] == self.set@[k]@);
                    let jj = choose|jj: int| 0 <= jj < res@.len() && (#[trigger] res@[jj])@ == index_entry(path@, self.set@[k]@);
                    assert(out@[jj]@ == res@[jj]@);
                    assert(views(out@)[jj] == e);
                }
            }
        }
        out
    }
}

/// `path` names a directory: it is empty (the root as a prefix), or ends in
/// `/` (the root `/` among them).
pub open spec fn is_dir_path(path: Seq<char>) -> bool {
    path.len() == 0 || ends_in_slash(path)
}

/// Each entry of a listing of the index lies directly under the listed
/// path's prefix, as a one-level listing must for a walk.
pub proof fn lemma_index_listing_is_one_level(keys: Seq<Seq<char>>, path: Seq<char>, entries: Seq<Seq<char>>, e: Seq<char>)
    requires
        is_index_listing(keys, path, entries),
        entries.contains(e),
    ensures
        crate::walk::is_child(query_prefix(path), e),
        listed_under(query_prefix(path), e),
{
    let q = query_prefix(path);
    let k = choose|k: int| 0 <= k < keys.len() && listed_under(q, keys[k]) && e == index_entry(q, keys[k]);
    crate::walk::lemma_index_entry_is_child(q, keys[k]);
    assert(e.subrange(0, q.len() as int) =~= q);
}

/// What listing `path` returns over `keys`: each entry once, and an entry
/// exactly when some key under the query prefix gives it.
pub open spec fn is_index_listing(keys: Seq<Seq<char>>, path: Seq<char>, entries: Seq<Seq<char>>) -> bool {
    &&& entries.no_duplicates()
    &&& forall|e: Seq<char>| #[trigger] entries.contains(e) <==> entry_of_some_key(keys, query_prefix(path), e)
}

impl<A> ImmutableIndexAccessor<A> {
    /// Lists `path` from the index; the root `/` lists every top-level entry.
    /// A path that names no directory (neither the root, nor empty, nor
    /// ending in `/`) cannot be listed.
    pub fn blocking_list(&self, path: &str) -> (r: Result<ImmutableDir, Error>)
        ensures
            is_dir_path(path@) ==> (r matches Ok(d) && is_index_listing(views(self.set@), path@, views(d.idx@))),
            !is_dir_path(path@) ==> (r matches Err(e) && e.kind == ErrorKind::ObjectNotADirectory),
    {
        proof {
            reveal_strlit("/");
            reveal_strlit("");
            assert("/"@ =~= seq!['/']);
            assert(""@ =~= Seq::<char>::empty());
        }
        if !(path.unicode_len() == 0 || ends_with_slash(path)) {
            return Err(Error::new(ErrorKind::ObjectNotADirectory, "the path to list is not a directory"));
        }
        let idx = if same_text(path, "/") { self.children("") } else { self.children(path) };
        Ok(ImmutableDir::new(idx))
    }
}

/// A listing served from the index: one page with every entry, then the end.
#[derive(Debug)]
pub struct ImmutableDir {
    pub idx: Vec<String>,
}

impl ImmutableDir {
    /// A pager over the given entries.
    pub fn new(idx: Vec<String>) -> (r: ImmutableDir)
        ensures
            r.idx == idx,
    {
        ImmutableDir { idx }
    }

    /// All remaining entries as one page, each a directory exactly when its
    /// path ends in `/`; `None` once they have been handed out.
    pub fn inner_next_page(&mut self) -> (r: Option<Vec<ObjectEntry>>)
        ensures
            final(self).idx@.len() == 0,
            old(self).idx@.len() == 0 ==> r is None,
            old(self).idx@.len() > 0 ==> (r matches Some(page) && page@.len() == old(self).idx@.len()
                && forall|i: int| 0 <= i < page@.len() ==> {
                    &&& (#[trigger] page@[i]).path@ == old(self).idx@[i]@
                    &&& page@[i].meta.mode == mode_of_path(page@[i].path@)
                    &&& page@[i].wf()
                }),
    {
        if self.idx.len() == 0 {
            return None;
        }
        let vs = copy_strings(&self.idx);
        self.idx = Vec::new();
        let mut page: Vec<ObjectEntry> = Vec::new();
        let mut i: usize = 0;
        while i < vs.len()
            invariant
                i <= vs@.len(),
                vs@ == old(self).idx@,
                page@.len() == i,
                forall|k: int| 0 <= k < i ==> {
                    &&& (#[trigger] page@[k]).path@ == vs@[k]@
                    &&& page@[k].meta.mode == mode_of_path(page@[k].path@)
                    &&& page@[k].wf()
                },
            decreases vs@.len() - i,
        {
            let v = vs[i].clone();
            let mode = mode_for_path(v.as_str());
            page.push(ObjectEntry::with(v, ObjectMetadata::new(mode)));
            i = i + 1;
        }
        Some(page)
    }
}

impl ObjectPage for ImmutableDir {
    /// All remaining entries as one page, then the end.
    fn next_page(&mut self) -> (r: Result<Option<Vec<ObjectEntry>>, Error>)
        ensures
            final(self).idx@.len() == 0,
            old(self).idx@.len() == 0 ==> r matches Ok(None),
            old(self).idx@.len() > 0 ==> (r matches Ok(Some(page)) && page@.len() == old(self).idx@.len()
                && forall|i: int| 0 <= i < page@.len() ==> {
                    &&& (#[trigger] page@[i]).path@ == old(self).idx@[i]@
                    &&& page@[i].meta.mode == mode_of_path(page@[i].path@)
                    &&& page@[i].wf()
                }),
    {
        Ok(self.inner_next_page())
    }
}


impl Default for ImmutableIndexLayer {
    /// An empty index.
    fn default() -> (r: ImmutableIndexLayer)
        ensures
            r.wf(),
            r.keys() == Set::<Seq<char>>::empty(),
    {
        ImmutableIndexLayer::new()
    }
}

} // verus!
