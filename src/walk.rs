//! Directory walkers built on one-level listings. The caller hands each
//! directory that the walker asks for to `list`, feeds the pages back, and
//! receives the entries in walk order.

use vstd::prelude::*;
use crate::entry::ObjectEntry;
use crate::layers::immutable_index::{index_entry, listed_under, query_prefix};
use crate::metadata::{ObjectMetadata, ObjectMode};
use crate::text::{
    chars_of, chars_take, ends_in_slash, find_char_from, is_prefix, lemma_find_from_bounds, owned, same_text,
    slash_from, string_from_chars,
};

verus! {

/// `e` lies directly in the directory whose listing prefix is `p`: it
/// extends `p`, and no `/` follows `p` in it but possibly a last one.
pub open spec fn is_child(p: Seq<char>, e: Seq<char>) -> bool {
    &&& is_prefix(p, e)
    &&& e.len() > p.len()
    &&& forall|k: int| p.len() <= k < e.len() - 1 ==> e[k] != '/'
}

/// Directory `a` contains `e`, at any depth.
pub open spec fn is_ancestor(a: Seq<char>, e: Seq<char>) -> bool {
    ends_in_slash(a) && is_prefix(a, e) && a.len() < e.len()
}

/// `e` lies under the walk's root `root`: the root contains it (the root
/// `/` contains every other path).
pub open spec fn below_root(root: Seq<char>, e: Seq<char>) -> bool {
    is_prefix(query_prefix(root), e) && e != root && e != query_prefix(root)
}

/// An ancestor of a child lies along its directory.
pub proof fn lemma_ancestor_of_child(a: Seq<char>, p: Seq<char>, e: Seq<char>)
    requires
        is_ancestor(a, e),
        is_child(p, e),
    ensures
        is_prefix(a, p),
{
    let i = a.len() - 1;
    assert(e[i] == a[i]);
    if i >= p.len() {
        assert(e[i] != '/');
    }
    assert(a.len() <= p.len());
    assert(p.subrange(0, a.len() as int) =~= a) by {
        assert forall|k: int| 0 <= k < a.len() implies p.subrange(0, a.len() as int)[k] == a[k] by {
            assert(e[k] == p[k]);
            assert(e[k] == a[k]);
        }
    }
}

/// Each entry of a listing of the index is a child of the query prefix.
pub proof fn lemma_index_entry_is_child(p: Seq<char>, k: Seq<char>)
    requires
        listed_under(p, k),
    ensures
        is_child(p, index_entry(p, k)),
{
    lemma_find_from_bounds(k, p.len() as int, '/');
    let e = index_entry(p, k);
    let s = slash_from(k, p.len() as int);
    if s < k.len() {
        assert(e.subrange(0, p.len() as int) =~= p) by {
            assert forall|i: int| 0 <= i < p.len() implies e[i] == p[i] by {
                assert(k.subrange(0, p.len() as int)[i] == p[i]);
            }
        }
    } else {
        assert(k.len() != p.len() || k =~= p) by {
            if k.len() == p.len() {
                assert(k.subrange(0, p.len() as int) =~= k);
            }
        }
    }
}

/// A top-down walk: each directory is handed out (and emitted) before it is
/// listed, and everything found in it is emitted after it.
pub struct TopDownWalker {
    pub root: String,
    /// Directories found, in the order they are to be listed; the root first.
    pub dirs: Vec<String>,
    /// How many directories have been handed out.
    pub next: usize,
    /// The paths emitted so far, in order.
    pub emitted: Ghost<Seq<Seq<char>>>,
    /// For each emitted path, the index of the emitted directory whose
    /// listing found it; `-1` for the root.
    pub origin: Ghost<Seq<int>>,
    /// For each found directory, the index of the emitted directory whose
    /// listing found it; `-1` for the root.
    pub found_in: Ghost<Seq<int>>,
    /// For each directory handed out, its index among the emitted paths.
    pub dir_index: Ghost<Seq<int>>,
}

impl TopDownWalker {
    /// The walk's bookkeeping holds together.
    pub open spec fn wf(&self) -> bool {
        let em = self.emitted@;
        let og = self.origin@;
        let fi = self.found_in@;
        let di = self.dir_index@;
        &&& ends_in_slash(self.root@)
        &&& self.dirs@.len() >= 1
        &&& self.dirs@[0]@ == self.root@
        &&& string_views(self.dirs@).no_duplicates()
        &&& self.next <= self.dirs@.len()
        &&& fi.len() == self.dirs@.len()
        &&& di.len() == self.next
        &&& og.len() == em.len()
        &&& fi[0] == -1
        &&& forall|k: int| 1 <= k < self.dirs@.len() ==> 0 <= #[trigger] fi[k] < em.len()
            && is_child(query_prefix(em[fi[k]]), self.dirs@[k]@) && ends_in_slash(self.dirs@[k]@)
        &&& forall|k: int| 0 <= k < self.next ==> 0 <= #[trigger] di[k] < em.len() && em[di[k]] == self.dirs@[k]@
        &&& forall|j: int| 0 <= j < em.len() ==> -1 <= #[trigger] og[j] < j
        &&& forall|j: int| 0 <= j < em.len() && og[j] == -1 ==> #[trigger] em[j] == self.root@
        &&& forall|j: int| 0 <= j < em.len() && og[j] >= 0 ==> is_child(query_prefix(em[og[j]]), #[trigger] em[j])
    }

    /// A walk from directory `root`, with nothing emitted yet.
    pub fn new(root: &str) -> (r: TopDownWalker)
        requires
            ends_in_slash(root@),
        ensures
            r.wf(),
            r.root@ == root@,
            r.emitted@.len() == 0,
    {
        let mut dirs: Vec<String> = Vec::new();
        dirs.push(owned(root));
        assert(string_views(dirs@).len() == 1);
        TopDownWalker {
            root: owned(root),
            dirs,
            next: 0,
            emitted: Ghost(Seq::empty()),
            origin: Ghost(Seq::empty()),
            found_in: Ghost(Seq::empty().push(-1int)),
            dir_index: Ghost(Seq::empty()),
        }
    }

    /// The next directory to list, emitted as an entry of its own; `None`
    /// when every directory found has been handed out.
    pub fn next_dir(&mut self) -> (r: Option<ObjectEntry>)
        requires
            old(self).wf(),
        ensures
            final(self).wf(),
            final(self).root == old(self).root,
            final(self).dirs == old(self).dirs,
            old(self).next < old(self).dirs@.len() ==> (r matches Some(e) && e.wf() && e.meta.mode == ObjectMode::DIR
                && e.path@ == old(self).dirs@[old(self).next as int]@
                && final(self).emitted@ == old(self).emitted@.push(e.path@)
                && final(self).next == old(self).next + 1),
            old(self).next >= old(self).dirs@.len() ==> (r is None && final(self).emitted@ == old(self).emitted@
                && final(self).next == old(self).next),
    {
        if self.next >= self.dirs.len() {
            return None;
        }
        let path = self.dirs[self.next].clone();
        let ghost k = self.next as int;
        let ghost j = self.emitted@.len() as int;
        proof {
            self.origin@ = self.origin@.push(self.found_in@[k]);
            self.emitted@ = self.emitted@.push(path@);
            self.dir_index@ = self.dir_index@.push(j);
        }
        self.next = self.next + 1;
        proof {
            let em = self.emitted@;
            let og = self.origin@;
            assert forall|j2: int| 0 <= j2 < em.len() && og[j2] >= 0 implies is_child(query_prefix(em[og[j2]]), #[trigger] em[j2]) by {
                if j2 == j {
                    assert(og[j2] == self.found_in@[k]);
                }
            }
            assert forall|j2: int| 0 <= j2 < em.len() && og[j2] == -1 implies #[trigger] em[j2] == self.root@ by {
                if j2 == j {
                    if k >= 1 {
                        assert(0 <= self.found_in@[k]);
                    }
                }
            }
        }
        let ghost root = self.root@;
        assert(ends_in_slash(path@)) by {
            if k == 0 {
                assert(path@ == root);
            }
        }
        Some(ObjectEntry::with(path, ObjectMetadata::new(ObjectMode::DIR)))
    }

    /// One page of the listing of the directory last handed out. Files
    /// directly in it are emitted now, and returned; directories are queued,
    /// to be emitted when handed out. An entry deeper down (the listing left
    /// out the directories between) gives the directory directly in the
    /// listed one that leads to it, which is queued in its place. A
    /// directory is queued once.
    pub fn on_page(&mut self, page: Vec<ObjectEntry>) -> (r: Vec<ObjectEntry>)
        requires
            old(self).wf(),
            old(self).next > 0,
            forall|i: int| 0 <= i < page@.len() ==> (#[trigger] page@[i]).wf()
                && listed_under(query_prefix(old(self).dirs@[old(self).next - 1]@), page@[i].path@),
        ensures
            final(self).wf(),
            final(self).root == old(self).root,
            final(self).next == old(self).next,
            entry_paths(r@) == direct_files(query_prefix(old(self).dirs@[old(self).next - 1]@), entry_paths(page@)),
            final(self).emitted@ == old(self).emitted@ + entry_paths(r@),
            final(self).dirs@.subrange(0, old(self).dirs@.len() as int) == old(self).dirs@,
            string_views(final(self).dirs@) == string_views(old(self).dirs@) + new_dirs(
                query_prefix(old(self).dirs@[old(self).next - 1]@),
                string_views(old(self).dirs@),
                entry_paths(page@),
            ),
            forall|k: int| old(self).dirs@.len() <= k < final(self).dirs@.len() ==> {
                &&& is_child(query_prefix(old(self).dirs@[old(self).next - 1]@), #[trigger] final(self).dirs@[k]@)
                &&& ends_in_slash(final(self).dirs@[k]@)
            },
            forall|i: int| 0 <= i < page@.len()
                && ends_in_slash(index_entry(query_prefix(old(self).dirs@[old(self).next - 1]@), #[trigger] page@[i].path@))
                ==> string_views(final(self).dirs@).contains(
                    index_entry(query_prefix(old(self).dirs@[old(self).next - 1]@), page@[i].path@)),
    {
        let ghost parent = self.dir_index@[self.next - 1];
        let ghost listed = self.dirs@[self.next - 1]@;
        let ghost q = query_prefix(listed);
        let ghost old_dirs = self.dirs@;
        let ghost orig = page@;
        let qs = query_chars(self.dirs[self.next - 1].as_str());
        let mut page = page;
        let mut out: Vec<ObjectEntry> = Vec::new();
        let ghost mut k: int = 0;
        assert(orig.subrange(0, 0) =~= Seq::<ObjectEntry>::empty());
        assert(entry_paths(orig.subrange(0, 0)) =~= Seq::<Seq<char>>::empty());
        assert(old(self).emitted@ + Seq::<Seq<char>>::empty() =~= old(self).emitted@);
        assert(old_dirs.subrange(0, old_dirs.len() as int) =~= old_dirs);
        assert(string_views(old_dirs) + Seq::<Seq<char>>::empty() =~= string_views(old_dirs));
        while page.len() > 0
            invariant
                self.wf(),
                self.root == old(self).root,
                self.next == old(self).next,
                self.next > 0,
                qs@ == q,
                q == query_prefix(listed),
                0 <= k <= orig.len(),
                page@ == orig.subrange(k, orig.len() as int),
                old_dirs == old(self).dirs@,
                parent == self.dir_index@[self.next - 1],
                listed == self.dirs@[self.next - 1]@,
                0 <= parent < self.emitted@.len(),
                self.emitted@[parent] == listed,
                entry_paths(out@) == direct_files(q, entry_paths(orig.subrange(0, k))),
                self.emitted@ == old(self).emitted@ + entry_paths(out@),
                self.dirs@.len() >= old_dirs.len(),
                self.dirs@.subrange(0, old_dirs.len() as int) == old_dirs,
                string_views(self.dirs@) == string_views(old_dirs) + new_dirs(q, string_views(old_dirs), entry_paths(orig.subrange(0, k))),
                forall|j: int| old_dirs.len() <= j < self.dirs@.len() ==> {
                    &&& is_child(q, #[trigger] self.dirs@[j]@)
                    &&& ends_in_slash(self.dirs@[j]@)
                },
                forall|i: int| 0 <= i < k && ends_in_slash(index_entry(q, #[trigger] orig[i].path@))
                    ==> string_views(self.dirs@).contains(index_entry(q, orig[i].path@)),
                forall|i: int| 0 <= i < orig.len() ==> (#[trigger] orig[i]).wf() && listed_under(q, orig[i].path@),
            decreases page@.len(),
        {
            let e = page.remove(0);
            assert(e == orig[k]);
            let pc = chars_of(e.path.as_str());
            proof {
                lemma_find_from_bounds(pc@, q.len() as int, '/');
                lemma_index_entry_is_child(q, pc@);
                let t = entry_paths(orig.subrange(0, k + 1));
                assert(t.drop_last() =~= entry_paths(orig.subrange(0, k)));
                assert(t.last() == orig[k].path@);
            }
            let idx = find_char_from(&pc, qs.len(), '/');
            let ghost before_out = entry_paths(out@);
            let ghost before_dirs = self.dirs@;
            let ghost prev = new_dirs(q, string_views(old_dirs), entry_paths(orig.subrange(0, k)));
            proof {
                let t = entry_paths(orig.subrange(0, k + 1));
                assert(new_dirs(q, string_views(old_dirs), t) == {
                    let c = index_entry(q, t.last());
                    if ends_in_slash(c) && !(string_views(old_dirs) + prev).contains(c) { prev.push(c) } else { prev }
                });
            }
            if idx < pc.len() {
                let child = chars_take(&pc, idx + 1);
                assert(child@ == index_entry(q, e.path@));
                assert(ends_in_slash(child@));
                let name = string_from_chars(&child);
                if !contains_string(&self.dirs, &name) {
                    let ghost n = self.dirs@.len() as int;
                    self.dirs.push(name);
                    proof {
                        self.found_in@ = self.found_in@.push(parent);
                        let fi = self.found_in@;
                        let em = self.emitted@;
                        assert forall|j: int| 1 <= j < self.dirs@.len() implies 0 <= #[trigger] fi[j] < em.len()
                            && is_child(query_prefix(em[fi[j]]), self.dirs@[j]@) && ends_in_slash(self.dirs@[j]@) by {
                            if j < n {
                                assert(self.dirs@[j] == before_dirs[j]);
                            }
                        }
                        assert(string_views(self.dirs@) =~= string_views(before_dirs).push(child@));
                        assert(string_views(self.dirs@).no_duplicates()) by {
                            let v = string_views(self.dirs@);
                            let w = string_views(before_dirs);
                            assert forall|x: int, y: int| 0 <= x < v.len() && 0 <= y < v.len() && x != y implies v[x] != v[y] by {
                                if x < w.len() && y < w.len() {
                                } else if x < w.len() {
                                    assert(w.contains(v[x]));
                                } else if y < w.len() {
                                    assert(w.contains(v[y]));
                                }
                            }
                        }
                        assert forall|j: int| old_dirs.len() <= j < self.dirs@.len() implies {
                            &&& is_child(q, #[trigger] self.dirs@[j]@)
                            &&& ends_in_slash(self.dirs@[j]@)
                        } by {
                            if j < n {
                                assert(self.dirs@[j] == before_dirs[j]);
                            }
                        }
                        assert(self.dirs@.subrange(0, old_dirs.len() as int) =~= before_dirs.subrange(0, old_dirs.len() as int));
                        assert forall|i: int| 0 <= i < k + 1 && ends_in_slash(index_entry(q, #[trigger] orig[i].path@))
                            implies string_views(self.dirs@).contains(index_entry(q, orig[i].path@)) by {
                            if i < k {
                                let w = string_views(before_dirs);
                                let x = choose|x: int| 0 <= x < w.len() && w[x] == index_entry(q, orig[i].path@);
                                assert(string_views(self.dirs@)[x] == w[x]);
                            } else {
                                assert(string_views(self.dirs@)[n] == child@);
                            }
                        }
                    }
                } else {
                    proof {
                        assert forall|i: int| 0 <= i < k + 1 && ends_in_slash(index_entry(q, #[trigger] orig[i].path@))
                            implies string_views(self.dirs@).contains(index_entry(q, orig[i].path@)) by {
                            if i == k {
                                assert(string_views(self.dirs@).contains(child@));
                            }
                        }
                    }
                }
                assert(!(index_entry(q, orig[k].path@) == orig[k].path@ && !ends_in_slash(orig[k].path@)));
                assert(string_views(self.dirs@) =~= string_views(old_dirs) + new_dirs(q, string_views(old_dirs), entry_paths(orig.subrange(0, k + 1))));
                assert(entry_paths(out@) == direct_files(q, entry_paths(orig.subrange(0, k + 1))));
            } else {
                proof {
                    let j = self.emitted@.len() as int;
                    self.emitted@ = self.emitted@.push(e.path@);
                    self.origin@ = self.origin@.push(parent);
                    let em = self.emitted@;
                    let og = self.origin@;
                    assert(index_entry(q, e.path@) == e.path@);
                    assert(!ends_in_slash(e.path@)) by {
                        if e.path@.len() > 0 && e.path@.last() == '/' {
                            assert(e.path@.len() - 1 >= q.len()) by {
                                assert(e.path@ != q);
                                assert(is_prefix(q, e.path@));
                            }
                        }
                    }
                    assert forall|j2: int| 0 <= j2 < em.len() && og[j2] >= 0 implies is_child(query_prefix(em[og[j2]]), #[trigger] em[j2]) by {
                        if j2 == j {
                            assert(em[og[j2]] == listed);
                        }
                    }
                    assert forall|i: int| 0 <= i < k + 1 && ends_in_slash(index_entry(q, #[trigger] orig[i].path@))
                        implies string_views(self.dirs@).contains(index_entry(q, orig[i].path@)) by {
                        assert(i != k);
                    }
                }
                out.push(e);
                assert(entry_paths(out@) =~= before_out.push(orig[k].path@));
                assert(string_views(self.dirs@) =~= string_views(old_dirs) + new_dirs(q, string_views(old_dirs), entry_paths(orig.subrange(0, k + 1))));
                assert(self.emitted@ =~= old(self).emitted@ + entry_paths(out@));
            }
            proof {
                k = k + 1;
            }
        }
        assert(orig.subrange(0, k) =~= orig);
        out
    }
}

/// The characters of the prefix that a directory's listing is queried with.
fn query_chars(dir: &str) -> (r: Vec<char>)
    ensures
        r@ == query_prefix(dir@),
{
    proof {
        reveal_strlit("/");
        assert("/"@ =~= seq!['/']);
    }
    if same_text(dir, "/") { Vec::new() } else { chars_of(dir) }
}

/// Whether `v` holds a string equal to `x`.
fn contains_string(v: &Vec<String>, x: &String) -> (r: bool)
    ensures
        r == string_views(v@).contains(x@),
{
    let mut i: usize = 0;
    while i < v.len()
        invariant
            i <= v@.len(),
            forall|k: int| 0 <= k < i ==> v@[k]@ != x@,
        decreases v@.len() - i,
    {
        if v[i] == *x {
            assert(string_views(v@)[i as int] == x@);
            return true;
        }
        i = i + 1;
    }
    assert(!string_views(v@).contains(x@)) by {
        if string_views(v@).contains(x@) {
            let k = choose|k: int| 0 <= k < v@.len() && string_views(v@)[k] == x@;
            assert(v@[k]@ == x@);
        }
    }
    false
}

/// The directories that listing entries `s` under prefix `q` add to those
/// already `seen`: for each entry, the directory directly under `q` that
/// holds or is it, once, in order of first appearance.
pub open spec fn new_dirs(q: Seq<char>, seen: Seq<Seq<char>>, s: Seq<Seq<char>>) -> Seq<Seq<char>>
    decreases s.len(),
{
    if s.len() == 0 {
        Seq::empty()
    } else {
        let prev = new_dirs(q, seen, s.drop_last());
        let c = index_entry(q, s.last());
        if ends_in_slash(c) && !(seen + prev).contains(c) { prev.push(c) } else { prev }
    }
}

/// The paths among `s` that lie directly under the prefix `q` and are files, in order.
pub open spec fn direct_files(q: Seq<char>, s: Seq<Seq<char>>) -> Seq<Seq<char>>
    decreases s.len(),
{
    if s.len() == 0 {
        Seq::empty()
    } else if index_entry(q, s.last()) == s.last() && !ends_in_slash(s.last()) {
        direct_files(q, s.drop_last()).push(s.last())
    } else {
        direct_files(q, s.drop_last())
    }
}

/// In a walk from `root`, every directory containing an emitted path, and
/// lying under the root, was emitted before it.
pub proof fn lemma_top_down_order(w: &TopDownWalker, j: int, a: Seq<char>)
    requires
        w.wf(),
        0 <= j < w.emitted@.len(),
        is_ancestor(a, w.emitted@[j]),
        below_root(w.root@, a),
    ensures
        exists|i: int| 0 <= i < j && w.emitted@[i] == a,
    decreases j,
{
    let em = w.emitted@;
    let o = w.origin@[j];
    if o == -1 {
        assert(em[j] == w.root@);
        assert(false) by {
            let q = query_prefix(w.root@);
            assert(a.len() < w.root@.len());
            assert(is_prefix(q, a));
            if w.root@ == seq!['/'] {
                assert(q.len() == 0);
                assert(a.len() == 0);
            } else {
                assert(a.len() > w.root@.len() || a == w.root@) by {
                    if a.len() <= w.root@.len() {
                        assert(a =~= w.root@);
                    }
                }
            }
        }
    } else {
        let p = em[o];
        let q = query_prefix(p);
        assert(is_child(q, em[j]));
        lemma_ancestor_of_child(a, q, em[j]);
        if a == p {
        } else if q.len() == 0 {
            assert(a.len() == 0);
        } else {
            assert(q == p);
            assert(a.len() < p.len()) by {
                if a.len() >= p.len() {
                    assert(a =~= p);
                }
            }
            lemma_top_down_order(w, o, a);
        }
    }
}

/// The paths of a sequence of entries.
pub open spec fn entry_paths(v: Seq<ObjectEntry>) -> Seq<Seq<char>> {
    v.map_values(|e: ObjectEntry| e.path@)
}

/// A bottom-up walk: the walk's entries with every directory after all that
/// it contains, so that deleting them in this order empties each directory
/// before it is removed.
pub struct BottomUpWalker {
    pub walker: TopDownWalker,
    /// The entries found so far, in top-down order.
    pub collected: Vec<ObjectEntry>,
}

impl BottomUpWalker {
    /// The walk's bookkeeping holds together.
    pub open spec fn wf(&self) -> bool {
        &&& self.walker.wf()
        &&& entry_paths(self.collected@) == self.walker.emitted@
    }

    /// A walk from directory `root`.
    pub fn new(root: &str) -> (r: BottomUpWalker)
        requires
            ends_in_slash(root@),
        ensures
            r.wf(),
            r.walker.root@ == root@,
            r.collected@.len() == 0,
    {
        let r = BottomUpWalker { walker: TopDownWalker::new(root), collected: Vec::new() };
        assert(entry_paths(r.collected@) =~= r.walker.emitted@);
        r
    }

    /// The next directory to list; `None` once all have been listed.
    pub fn next_dir(&mut self) -> (r: Option<String>)
        requires
            old(self).wf(),
        ensures
            final(self).wf(),
            final(self).walker.root == old(self).walker.root,
            final(self).walker.next <= final(self).walker.dirs@.len(),
            r is Some ==> final(self).walker.next > 0 && final(self).walker.dirs@[final(self).walker.next - 1]@ == r->Some_0@,
            r is None ==> final(self).walker.next >= final(self).walker.dirs@.len(),
    {
        match self.walker.next_dir() {
            Some(e) => {
                let p = e.path.clone();
                self.collected.push(e);
                assert(entry_paths(self.collected@) =~= self.walker.emitted@);
                Some(p)
            },
            None => None,
        }
    }

    /// One page of the listing of the directory last handed out.
    pub fn on_page(&mut self, page: Vec<ObjectEntry>)
        requires
            old(self).wf(),
            old(self).walker.next > 0,
            forall|i: int| 0 <= i < page@.len() ==> (#[trigger] page@[i]).wf()
                && listed_under(query_prefix(old(self).walker.dirs@[old(self).walker.next - 1]@), page@[i].path@),
        ensures
            final(self).wf(),
            final(self).walker.root == old(self).walker.root,
            final(self).walker.next == old(self).walker.next,
            final(self).walker.emitted@ == old(self).walker.emitted@
                + direct_files(query_prefix(old(self).walker.dirs@[old(self).walker.next - 1]@), entry_paths(page@)),
            string_views(final(self).walker.dirs@) == string_views(old(self).walker.dirs@) + new_dirs(
                query_prefix(old(self).walker.dirs@[old(self).walker.next - 1]@),
                string_views(old(self).walker.dirs@),
                entry_paths(page@),
            ),
    {
        let ghost old_page = page;
        let files = self.walker.on_page(page);
        let ghost dirs_after = self.walker.dirs@;
        let ghost start = entry_paths(self.collected@);
        let ghost added = entry_paths(files@);
        let mut files = files;
        let ghost mut k: int = 0;
        assert(added.subrange(0, 0) =~= Seq::<Seq<char>>::empty());
        assert(start + Seq::<Seq<char>>::empty() =~= start);
        while files.len() > 0
            invariant
                0 <= k <= added.len(),
                files@.len() == added.len() - k,
                forall|i: int| 0 <= i < files@.len() ==> (#[trigger] files@[i]).path@ == added[k + i],
                entry_paths(self.collected@) == start + added.subrange(0, k),
                self.walker.wf(),
                self.walker.root == old(self).walker.root,
                self.walker.next == old(self).walker.next,
                self.walker.emitted@ == start + added,
                self.walker.dirs@ == dirs_after,
                string_views(dirs_after) == string_views(old(self).walker.dirs@) + new_dirs(
                    query_prefix(old(self).walker.dirs@[old(self).walker.next - 1]@),
                    string_views(old(self).walker.dirs@),
                    entry_paths(old_page@),
                ),
                start == old(self).walker.emitted@,
                self.walker.emitted@ == old(self).walker.emitted@
                    + direct_files(query_prefix(old(self).walker.dirs@[old(self).walker.next - 1]@), entry_paths(old_page@)),
            decreases files@.len(),
        {
            let e = files.remove(0);
            assert(e.path@ == added[k]);
            let ghost before = entry_paths(self.collected@);
            self.collected.push(e);
            proof {
                assert(entry_paths(self.collected@) =~= before.push(added[k]));
                assert(added.subrange(0, k + 1) =~= added.subrange(0, k).push(added[k]));
                k = k + 1;
            }
        }
        assert(k == added.len());
        assert(added.subrange(0, added.len() as int) =~= added);
    }

    /// The walk's entries, every directory after all that it contains.
    pub fn finish(self) -> (r: Vec<ObjectEntry>)
        requires
            self.wf(),
        ensures
            entry_paths(r@) == entry_paths(self.collected@).reverse(),
    {
        let mut v = self.collected;
        let ghost orig = v@;
        let mut out: Vec<ObjectEntry> = Vec::new();
        while v.len() > 0
            invariant
                entry_paths(out@) == entry_paths(orig.subrange(v@.len() as int, orig.len() as int)).reverse(),
                v@ == orig.subrange(0, v@.len() as int),
                v@.len() <= orig.len(),
            decreases v@.len(),
        {
            let ghost n = v@.len();
            let e = v.pop().unwrap();
            let ghost before = entry_paths(out@);
            out.push(e);
            proof {
                assert(v@ =~= orig.subrange(0, n - 1));
                let a = entry_paths(orig.subrange(n - 1, orig.len() as int));
                let b = entry_paths(orig.subrange(n as int, orig.len() as int));
                let x = orig[n - 1].path@;
                assert(e == orig[n - 1]);
                assert(entry_paths(out@) =~= before.push(x));
                assert(before == b.reverse());
                assert(a =~= seq![x] + b);
                assert(a.len() == b.len() + 1);
                assert forall|i: int| 0 <= i < a.len() implies a.reverse()[i] == entry_paths(out@)[i] by {
                    if i < b.len() {
                        assert(a.reverse()[i] == a[a.len() - 1 - i]);
                        assert(a[a.len() - 1 - i] == b[b.len() - 1 - i]);
                        assert(b.reverse()[i] == b[b.len() - 1 - i]);
                        assert(entry_paths(out@)[i] == before[i]);
                    } else {
                        assert(a.reverse()[i] == a[0]);
                    }
                }
                assert(entry_paths(out@) =~= a.reverse());
            }
        }
        assert(orig.subrange(0, orig.len() as int) =~= orig);
        out
    }
}

/// The views of a sequence of strings.
pub open spec fn string_views(v: Seq<String>) -> Seq<Seq<char>> {
    v.map_values(|s: String| s@)
}

/// In the bottom-up order (the top-down order reversed), every directory
/// that contains a path and lies under the root comes after it.
pub proof fn lemma_bottom_up_order(w: &TopDownWalker, j: int, a: Seq<char>)
    requires
        w.wf(),
        0 <= j < w.emitted@.len(),
        is_ancestor(a, w.emitted@.reverse()[j]),
        below_root(w.root@, a),
    ensures
        exists|i: int| j < i < w.emitted@.len() && w.emitted@.reverse()[i] == a,
{
    let em = w.emitted@;
    let n = em.len();
    let jj = n - 1 - j;
    assert(em.reverse()[j] == em[jj]);
    lemma_top_down_order(w, jj, a);
    let i0 = choose|i: int| 0 <= i < jj && em[i] == a;
    assert(em.reverse()[n - 1 - i0] == em[i0]);
}

} // verus!
