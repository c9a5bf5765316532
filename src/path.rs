//! Root and object paths: normalisation, joining under a root, and names.

use vstd::prelude::*;
use crate::text::{
    chars_of, chars_slice, ends_in_slash, is_prefix, owned, push_chars, same_text, string_from_chars,
};

verus! {

/// `s` with each run of `/` cut down to a single `/`.
pub open spec fn collapse_slashes(s: Seq<char>) -> Seq<char>
    decreases s.len(),
{
    if s.len() == 0 {
        Seq::empty()
    } else {
        let pre = collapse_slashes(s.drop_last());
        if s.last() == '/' && ends_in_slash(pre) { pre } else { pre.push(s.last()) }
    }
}

/// The normal form of a root: one `/` at each end, no empty segment between.
pub open spec fn normal_root(v: Seq<char>) -> Seq<char> {
    collapse_slashes(seq!['/'] + v + seq!['/'])
}

/// Normalises a root: `a//b` and `/a/b/` both give `/a/b/`, the empty root gives `/`.
pub fn normalize_root(v: &str) -> (r: String)
    ensures
        r@ == normal_root(v@),
        is_root_form(r@),
{
    proof {
        lemma_normal_root_form(v@);
    }
    let mut input: Vec<char> = Vec::new();
    input.push('/');
    push_chars(&mut input, &chars_of(v));
    input.push('/');
    assert(input@ =~= seq!['/'] + v@ + seq!['/']);
    let mut out: Vec<char> = Vec::new();
    let mut i: usize = 0;
    while i < input.len()
        invariant
            i <= input@.len(),
            out@ == collapse_slashes(input@.subrange(0, i as int)),
        decreases input@.len() - i,
    {
        let c = input[i];
        let ghost pre = input@.subrange(0, i as int);
        assert(input@.subrange(0, i + 1).drop_last() =~= pre);
        let skip = c == '/' && out.len() > 0 && out[out.len() - 1] == '/';
        if !skip {
            out.push(c);
        }
        i = i + 1;
    }
    assert(input@.subrange(0, input@.len() as int) =~= input@);
    string_from_chars(&out)
}

/// Whether a root is in the form the path builders expect: it begins and ends with `/`.
pub open spec fn is_root_form(root: Seq<char>) -> bool {
    root.len() > 0 && root[0] == '/' && root.last() == '/'
}

/// A normalised root begins and ends with `/`.
pub proof fn lemma_normal_root_form(v: Seq<char>)
    ensures
        is_root_form(normal_root(v)),
{
    let s = seq!['/'] + v + seq!['/'];
    lemma_collapse_first(s);
    assert(s.drop_last() =~= seq!['/'] + v);
    lemma_collapse_first(s.drop_last());
}

/// Collapsing keeps the first character and never ends empty on a non-empty input.
proof fn lemma_collapse_first(s: Seq<char>)
    requires
        s.len() > 0,
    ensures
        collapse_slashes(s).len() > 0,
        collapse_slashes(s)[0] == s[0],
        s.last() == '/' ==> ends_in_slash(collapse_slashes(s)),
    decreases s.len(),
{
    if s.len() > 1 {
        lemma_collapse_first(s.drop_last());
        assert(s.drop_last()[0] == s[0]);
        let pre = collapse_slashes(s.drop_last());
        if !(s.last() == '/' && ends_in_slash(pre)) {
            assert(pre.push(s.last())[0] == pre[0]);
        }
    } else {
        assert(collapse_slashes(s.drop_last()) =~= Seq::<char>::empty());
    }
}

/// The absolute path of `path` under `root`, without the leading `/`;
/// the root itself for `/`.
pub open spec fn abs_path(root: Seq<char>, path: Seq<char>) -> Seq<char> {
    if path == seq!['/'] {
        root.subrange(1, root.len() as int)
    } else {
        root.subrange(1, root.len() as int) + path
    }
}

/// The absolute path of `path` under `root`, leading `/` kept.
pub open spec fn rooted_abs_path(root: Seq<char>, path: Seq<char>) -> Seq<char> {
    if path == seq!['/'] { root } else { root + path }
}

/// Joins `path` under `root`, dropping the root's leading `/`.
pub fn build_abs_path(root: &str, path: &str) -> (r: String)
    requires
        is_root_form(root@),
    ensures
        r@ == abs_path(root@, path@),
{
    proof {
        reveal_strlit("/");
        assert("/"@ =~= seq!['/']);
    }
    let rc = chars_of(root);
    let mut out = chars_slice(&rc, 1, rc.len());
    if !same_text(path, "/") {
        push_chars(&mut out, &chars_of(path));
    }
    string_from_chars(&out)
}

/// Joins `path` under `root`, keeping the root's leading `/`.
pub fn build_rooted_abs_path(root: &str, path: &str) -> (r: String)
    requires
        is_root_form(root@),
    ensures
        r@ == rooted_abs_path(root@, path@),
{
    proof {
        reveal_strlit("/");
        assert("/"@ =~= seq!['/']);
    }
    let mut out = chars_of(root);
    if !same_text(path, "/") {
        push_chars(&mut out, &chars_of(path));
    }
    string_from_chars(&out)
}

/// The path of `path` relative to `root`: an absolute path loses the whole
/// root, a path without the leading `/` loses the root's remainder.
pub open spec fn rel_path(root: Seq<char>, path: Seq<char>) -> Seq<char> {
    if path.len() > 0 && path[0] == '/' {
        path.subrange(root.len() as int, path.len() as int)
    } else {
        path.subrange(root.len() - 1, path.len() as int)
    }
}

/// Strips `root` from a path that lies under it.
pub fn build_rel_path(root: &str, path: &str) -> (r: String)
    requires
        is_root_form(root@),
        path@.len() > 0 && path@[0] == '/' ==> is_prefix(root@, path@),
        !(path@.len() > 0 && path@[0] == '/') ==> is_prefix(root@.subrange(1, root@.len() as int), path@),
    ensures
        r@ == rel_path(root@, path@),
{
    let pc = chars_of(path);
    let n = root.unicode_len();
    let out = if pc.len() > 0 && pc[0] == '/' {
        chars_slice(&pc, n, pc.len())
    } else {
        chars_slice(&pc, n - 1, pc.len())
    };
    string_from_chars(&out)
}

/// Index of the last `/` in `s`, `-1` when there is none.
pub open spec fn last_slash(s: Seq<char>) -> int
    decreases s.len(),
{
    if s.len() == 0 {
        -1
    } else if s.last() == '/' {
        s.len() - 1
    } else {
        last_slash(s.drop_last())
    }
}

/// The name of the object at `path`: the root is `/`, a file is what follows
/// its last `/`, a directory is its last segment with the trailing `/`.
pub open spec fn basename(path: Seq<char>) -> Seq<char> {
    if path == seq!['/'] {
        path
    } else if !ends_in_slash(path) {
        path.subrange(last_slash(path) + 1, path.len() as int)
    } else {
        path.subrange(last_slash(path.drop_last()) + 1, path.len() as int)
    }
}

proof fn lemma_last_slash_bounds(s: Seq<char>)
    ensures
        -1 <= last_slash(s) < s.len(),
    decreases s.len(),
{
    if s.len() > 0 && s.last() != '/' {
        lemma_last_slash_bounds(s.drop_last());
    }
}

/// Index of the last `/` among the first `n` characters of `s`, or `-1`.
fn find_last_slash(s: &Vec<char>, n: usize) -> (r: i64)
    requires
        n <= s@.len(),
        s@.len() < i64::MAX,
    ensures
        r as int == last_slash(s@.subrange(0, n as int)),
{
    let mut j: usize = n;
    while j > 0
        invariant
            j <= n <= s@.len(),
            s@.len() < i64::MAX,
            last_slash(s@.subrange(0, n as int)) == last_slash(s@.subrange(0, j as int)),
        decreases j,
    {
        let ghost t = s@.subrange(0, j as int);
        assert(t.drop_last() =~= s@.subrange(0, j - 1));
        if s[j - 1] == '/' {
            assert(t.last() == '/');
            return (j - 1) as i64;
        }
        j = j - 1;
    }
    -1
}

/// The name of the object at `path`.
pub fn get_basename(path: &str) -> (r: String)
    requires
        path@.len() < i64::MAX,
    ensures
        r@ == basename(path@),
{
    proof {
        reveal_strlit("/");
        assert("/"@ =~= seq!['/']);
    }
    let pc = chars_of(path);
    if same_text(path, "/") {
        return owned(path);
    }
    let n = pc.len();
    if !(n > 0 && pc[n - 1] == '/') {
        let i = find_last_slash(&pc, n);
        proof {
            assert(pc@.subrange(0, n as int) =~= pc@);
            lemma_last_slash_bounds(pc@);
        }
        string_from_chars(&chars_slice(&pc, (i + 1) as usize, n))
    } else {
        let i = find_last_slash(&pc, n - 1);
        proof {
            assert(pc@.subrange(0, n - 1) =~= pc@.drop_last());
            lemma_last_slash_bounds(pc@.drop_last());
        }
        string_from_chars(&chars_slice(&pc, (i + 1) as usize, n))
    }
}

} // verus!
