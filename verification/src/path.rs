//! Resolving a path that may not exist yet: the part of it that exists is replaced by its
//! canonical form, and what does not exist yet is appended as it was written.
//!
//! Paths are texts whose components are separated by `/`. The file system is not touched
//! here: the caller probes the ancestors that [`path_ancestors`] lists and hands the
//! canonical form of each one that exists to [`path_from_str`].

use vstd::prelude::*;
use vstd::string::StringExecFns;
use vstd::string::StrSliceExecFns;
use crate::text::{chars_of, ends_with, slice_text, string_text};

verus! {

/// What a [`PathError`] stands for.
pub enum PathFault {
    MissingBaseDir,
    CanonicalizationFailed(Seq<char>),
}

/// A path that could not be resolved.
#[derive(Debug)]
pub enum PathError {
    /// The path is relative and there is no directory to take it from.
    MissingBaseDir,
    /// The path, which is given, has no ancestor with a canonical form: not even the
    /// shortest one exists, or what was found of the longest one is not absolute.
    CanonicalizationFailed(String),
}

impl View for PathError {
    type V = PathFault;

    open spec fn view(&self) -> PathFault {
        match self {
            PathError::MissingBaseDir => PathFault::MissingBaseDir,
            PathError::CanonicalizationFailed(p) => PathFault::CanonicalizationFailed(p@),
        }
    }
}

/// What a path error tells the user.
pub open spec fn path_message(e: PathFault) -> Seq<char> {
    match e {
        PathFault::MissingBaseDir => "No base directory was given for a relative path"@,
        PathFault::CanonicalizationFailed(p) => "No ancestor of "@ + p + " could be canonicalized"@,
    }
}

impl PathError {
    pub fn message(&self) -> (m: String)
        ensures
            m@ == path_message(self@),
    {
        match self {
            PathError::MissingBaseDir => String::from_str(
                "No base directory was given for a relative path",
            ),
            PathError::CanonicalizationFailed(p) => {
                let mut m = String::from_str("No ancestor of ");
                m.append(p.as_str());
                m.append(" could be canonicalized");
                m
            },
        }
    }
}

/// An absolute path, canonical as far as it exists.
#[derive(Debug)]
pub struct ResolvedPath {
    text: String,
}

impl View for ResolvedPath {
    type V = Seq<char>;

    closed spec fn view(&self) -> Seq<char> {
        self.text@
    }
}

impl ResolvedPath {
    #[verifier::type_invariant]
    spec fn well_formed(&self) -> bool {
        is_absolute(self.text@)
    }

    pub fn as_str(&self) -> (s: &str)
        ensures
            s@ == self@,
            is_absolute(s@),
    {
        proof {
            use_type_invariant(self);
        }
        self.text.as_str()
    }

}

impl Clone for ResolvedPath {
    fn clone(&self) -> (r: ResolvedPath)
        ensures
            r@ == self@,
    {
        proof {
            use_type_invariant(self);
        }
        ResolvedPath { text: self.text.clone() }
    }
}

/// A path that starts at a root: a leading `/`, or a drive letter, a colon and a separator.
pub open spec fn is_absolute(p: Seq<char>) -> bool {
    ||| p.len() >= 1 && p[0] == '/'
    ||| p.len() >= 3 && 'A' <= p[0] <= 'Z' && p[1] == ':' && (p[2] == '/' || p[2] == '\\')
}

/// `rel` taken from `base`: a rooted `rel` stands for itself, and a separator is put
/// between the two unless `base` is empty or already ends in one.
pub open spec fn joined(base: Seq<char>, rel: Seq<char>) -> Seq<char> {
    if rel.len() > 0 && rel[0] == '/' {
        rel
    } else if base.len() == 0 || base.last() == '/' {
        base + rel
    } else {
        base.push('/') + rel
    }
}

/// The path that `raw` stands for before anything is looked up.
pub open spec fn candidate(raw: Seq<char>, base_dir: Option<Seq<char>>) -> Result<
    Seq<char>,
    PathFault,
> {
    if is_absolute(raw) {
        Ok(raw)
    } else {
        match base_dir {
            Some(base) => Ok(joined(base, raw)),
            None => Err(PathFault::MissingBaseDir),
        }
    }
}

/// The length of the root that `p` starts with.
pub open spec fn root_len(p: Seq<char>) -> int {
    if p.len() > 0 && p[0] == '/' {
        1
    } else {
        0
    }
}

/// An ancestor of `p` ends at `j`: right after the root, or at the end of a component.
pub open spec fn is_cut(p: Seq<char>, j: int) -> bool {
    ||| j == root_len(p)
    ||| 0 < j <= p.len() && p[j - 1] != '/' && (j == p.len() || p[j] == '/')
}

/// The positions up to `n` at which an ancestor of `p` ends, in rising order.
pub open spec fn cuts_upto(p: Seq<char>, n: int) -> Seq<int>
    decreases n + 1,
{
    if n < 0 {
        Seq::empty()
    } else if is_cut(p, n) {
        cuts_upto(p, n - 1).push(n)
    } else {
        cuts_upto(p, n - 1)
    }
}

/// The positions at which the ancestors of `p` end, the shortest ancestor first.
pub open spec fn cuts(p: Seq<char>) -> Seq<int> {
    cuts_upto(p, p.len() as int)
}

/// The ancestors of `p`, the shortest first: the root, or the empty path where `p` has no
/// root, and then `p` up to the end of each of its components.
pub open spec fn ancestors(p: Seq<char>) -> Seq<Seq<char>> {
    Seq::new(cuts(p).len(), |i: int| p.take(cuts(p)[i]))
}

/// The first position from `i` on that holds no separator.
pub open spec fn after_slashes(p: Seq<char>, i: int) -> int
    decreases p.len() - i,
{
    if 0 <= i < p.len() && p[i] == '/' {
        after_slashes(p, i + 1)
    } else {
        i
    }
}

/// How many ancestors, counted from `i` on and at most up to `limit`, are known to exist
/// without a gap.
pub open spec fn reach_from(probes: Seq<Option<Seq<char>>>, limit: int, i: int) -> int
    decreases limit - i,
{
    if 0 <= i < limit && i < probes.len() && probes[i] is Some {
        reach_from(probes, limit, i + 1)
    } else {
        i
    }
}

/// The number of leading ancestors of a path with `limit` ancestors that exist.
pub open spec fn reach(probes: Seq<Option<Seq<char>>>, limit: int) -> int {
    reach_from(probes, limit, 0)
}

/// The resolved form of `path`, where `probes[i]` is the canonical form of its `i`-th
/// ancestor, or `None` if that ancestor does not exist: the canonical form of the longest
/// ancestor before the first gap, and after it the rest of `path` as written. A canonical
/// form is absolute; where what stands for it is not, there is no resolved form.
pub open spec fn resolved(path: Seq<char>, probes: Seq<Option<Seq<char>>>) -> Result<
    Seq<char>,
    PathFault,
> {
    let k = reach(probes, cuts(path).len() as int);
    if k <= 0 || !is_absolute(probes[k - 1]->0) {
        Err(PathFault::CanonicalizationFailed(path))
    } else {
        Ok(joined(probes[k - 1]->0, path.skip(after_slashes(path, cuts(path)[k - 1]))))
    }
}

/// What the caller has learnt of the ancestors, as values of the model.
pub open spec fn probe_views(probes: Seq<Option<String>>) -> Seq<Option<Seq<char>>> {
    Seq::new(probes.len(), |i: int| string_text(probes[i]))
}

/// The whole of path resolution: the candidate for `raw`, then its resolved form.
pub open spec fn resolution(
    raw: Seq<char>,
    base_dir: Option<Seq<char>>,
    probes: Seq<Option<Seq<char>>>,
) -> Result<Seq<char>, PathFault> {
    match candidate(raw, base_dir) {
        Ok(path) => resolved(path, probes),
        Err(e) => Err(e),
    }
}

/// Tells whether `raw` starts at a root.
pub fn starts_at_root(raw: &str) -> (b: bool)
    ensures
        b == is_absolute(raw@),
{
    let v = chars_of(raw);
    (v.len() >= 1 && v[0] == '/') || (v.len() >= 3 && v[0] >= 'A' && v[0] <= 'Z' && v[1] == ':'
        && (v[2] == '/' || v[2] == '\\'))
}

/// Takes `rel` from `base`.
pub fn join_paths(base: &str, rel: &str) -> (r: String)
    ensures
        r@ == joined(base@, rel@),
{
    let b = chars_of(base);
    let t = chars_of(rel);
    if t.len() > 0 && t[0] == '/' {
        return String::from_str(rel);
    }
    let mut r = String::from_str(base);
    if b.len() > 0 && b[b.len() - 1] != '/' {
        proof {
            reveal_strlit("/");
        }
        r.append("/");
        assert(r@ =~= base@.push('/'));
    }
    r.append(rel);
    r
}

/// The path that `raw` stands for before anything is looked up: `raw` itself where it
/// starts at a root, else `raw` taken from `base_dir`.
pub fn candidate_path(raw: &str, base_dir: Option<&str>) -> (r: Result<String, PathError>)
    ensures
        r matches Ok(p) ==> candidate(raw@, slice_text(base_dir)) == Ok::<Seq<char>, PathFault>(p@),
        r matches Err(e) ==> candidate(raw@, slice_text(base_dir)) == Err::<Seq<char>, PathFault>(e@),
{
    if starts_at_root(raw) {
        Ok(String::from_str(raw))
    } else {
        match base_dir {
            Some(base) => Ok(join_paths(base, raw)),
            None => Err(PathError::MissingBaseDir),
        }
    }
}

fn cut_points(v: &Vec<char>) -> (c: Vec<usize>)
    ensures
        c@.len() == cuts(v@).len(),
        forall|i: int| 0 <= i < c@.len() ==> #[trigger] c@[i] as int == cuts(v@)[i],
        forall|i: int| 0 <= i < c@.len() ==> #[trigger] c@[i] <= v.len(),
{
    let len = v.len();
    let root: usize = if len > 0 && v[0] == '/' {
        1
    } else {
        0
    };
    let mut c: Vec<usize> = Vec::new();
    let mut n: usize = 0;
    while n < len
        invariant
            n <= len == v.len(),
            root as int == root_len(v@),
            c@.len() == cuts_upto(v@, n - 1).len(),
            forall|i: int| 0 <= i < c@.len() ==> #[trigger] c@[i] as int == cuts_upto(v@, n - 1)[i],
            forall|i: int| 0 <= i < c@.len() ==> #[trigger] c@[i] <= v.len(),
        decreases len - n,
    {
        if n == root || (n > 0 && v[n - 1] != '/' && v[n] == '/') {
            c.push(n);
        }
        n += 1;
    }
    if len == root || (len > 0 && v[len - 1] != '/') {
        c.push(len);
    }
    c
}

/// The ancestors of `path`, the shortest first. They are what the caller is to look up.
pub fn path_ancestors(path: &str) -> (r: Vec<String>)
    ensures
        r@.len() == ancestors(path@).len(),
        forall|i: int| 0 <= i < r@.len() ==> (#[trigger] r@[i])@ == ancestors(path@)[i],
{
    let v = chars_of(path);
    let c = cut_points(&v);
    let mut r: Vec<String> = Vec::new();
    let mut i: usize = 0;
    while i < c.len()
        invariant
            i <= c.len(),
            v@ == path@,
            c@.len() == cuts(v@).len(),
            forall|j: int| 0 <= j < c@.len() ==> #[trigger] c@[j] as int == cuts(v@)[j],
            forall|j: int| 0 <= j < c@.len() ==> #[trigger] c@[j] <= v.len(),
            r@.len() == i,
            forall|j: int| 0 <= j < i ==> (#[trigger] r@[j])@ == ancestors(path@)[j],
        decreases c.len() - i,
    {
        let a = String::from_str(path.substring_char(0, c[i]));
        assert(a@ =~= path@.take(c@[i as int] as int));
        r.push(a);
        i += 1;
    }
    r
}

/// Resolves `raw`. `probes[i]` tells what the caller found of the `i`-th ancestor of the
/// candidate path: its canonical form, or `None` where it does not exist. Probes after
/// the first `None`, and ancestors without a probe, count as not existing. A path that
/// exists whole resolves to its canonical form with a closing separator.
///
/// Fails with `MissingBaseDir` where `raw` is relative and there is no `base_dir`, and with
/// `CanonicalizationFailed` where not even the shortest ancestor exists, or where the probe
/// of the longest existing ancestor is not an absolute path.
pub fn path_from_str(raw: &str, base_dir: Option<&str>, probes: &Vec<Option<String>>) -> (r:
    Result<ResolvedPath, PathError>)
    ensures
        r matches Ok(p) ==> resolution(raw@, slice_text(base_dir), probe_views(probes@)) == Ok::<
            Seq<char>,
            PathFault,
        >(p@),
        r matches Err(e) ==> resolution(raw@, slice_text(base_dir), probe_views(probes@)) == Err::<
            Seq<char>,
            PathFault,
        >(e@),
{
    let path = match candidate_path(raw, base_dir) {
        Ok(p) => p,
        Err(e) => {
            return Err(e);
        },
    };
    let v = chars_of(path.as_str());
    let c = cut_points(&v);
    let ghost pv = probe_views(probes@);
    let ghost limit = cuts(v@).len() as int;
    let mut k: usize = 0;
    while k < c.len() && k < probes.len() && probes[k].is_some()
        invariant
            k <= c.len(),
            k <= probes.len(),
            c@.len() == limit,
            pv == probe_views(probes@),
            reach(pv, limit) == reach_from(pv, limit, k as int),
            forall|j: int| 0 <= j < k ==> (#[trigger] probes@[j]) is Some,
        decreases c.len() - k,
    {
        assert(pv[k as int] is Some);
        k += 1;
    }
    assert(reach(pv, limit) == k) by {
        if k < c.len() && k < probes.len() {
            assert(pv[k as int] is None);
        }
    }
    if k == 0 {
        return Err(PathError::CanonicalizationFailed(path));
    }
    let cut = c[k - 1];
    let mut t: usize = cut;
    while t < v.len() && v[t] == '/'
        invariant
            cut <= t <= v.len(),
            after_slashes(v@, cut as int) == after_slashes(v@, t as int),
        decreases v.len() - t,
    {
        t += 1;
    }
    let tail = path.as_str().substring_char(t, v.len());
    assert(tail@ =~= path@.skip(t as int));
    match &probes[k - 1] {
        Some(canonical) => {
            assert(pv[k - 1] == Some(canonical@));
            if !starts_at_root(canonical.as_str()) {
                return Err(PathError::CanonicalizationFailed(path));
            }
            let text = join_paths(canonical.as_str(), tail);
            proof {
                lemma_joined_keeps_root(canonical@, tail@);
            }
            Ok(ResolvedPath { text })
        },
        None => Err(PathError::CanonicalizationFailed(path)),
    }
}

/// A rooted path stays rooted when something that is not rooted is taken from it.
pub proof fn lemma_joined_keeps_root(base: Seq<char>, rel: Seq<char>)
    requires
        is_absolute(base),
        rel.len() == 0 || rel[0] != '/',
    ensures
        is_absolute(joined(base, rel)),
        base.is_prefix_of(joined(base, rel)),
{
    let r = joined(base, rel);
    assert(r.subrange(0, base.len() as int) =~= base);
    assert(forall|i: int| 0 <= i < base.len() ==> r[i] == base[i]);
}

/// The ancestors counted by `reach_from` all exist, and the count stops at the first gap,
/// at the last probe or at the limit.
pub proof fn lemma_reach(probes: Seq<Option<Seq<char>>>, limit: int, i: int)
    requires
        0 <= i,
    ensures
        i <= reach_from(probes, limit, i),
        i <= limit && i <= probes.len() ==> reach_from(probes, limit, i) <= limit && reach_from(
            probes,
            limit,
            i,
        ) <= probes.len(),
        forall|j: int| i <= j < reach_from(probes, limit, i) ==> (#[trigger] probes[j]) is Some,
        ({
            let k = reach_from(probes, limit, i);
            k < limit && k < probes.len() ==> probes[k] is None
        }),
    decreases limit - i,
{
    if i < limit && i < probes.len() && probes[i] is Some {
        lemma_reach(probes, limit, i + 1);
    }
}

/// What follows the separators from `i` on does not start with a separator.
pub proof fn lemma_after_slashes(p: Seq<char>, i: int)
    requires
        0 <= i <= p.len(),
    ensures
        i <= after_slashes(p, i) <= p.len(),
        after_slashes(p, i) < p.len() ==> p[after_slashes(p, i)] != '/',
        forall|j: int| i <= j < after_slashes(p, i) ==> p[j] == '/',
    decreases p.len() - i,
{
    if i < p.len() && p[i] == '/' {
        lemma_after_slashes(p, i + 1);
    }
}

/// Every cut up to `n` lies between the root and `n`, and the cuts rise.
pub proof fn lemma_cuts_rise(p: Seq<char>, n: int)
    requires
        n <= p.len(),
    ensures
        forall|i: int|
            0 <= i < cuts_upto(p, n).len() ==> is_cut(p, #[trigger] cuts_upto(p, n)[i]) && 0
                <= cuts_upto(p, n)[i] <= n,
        forall|i: int, j: int|
            0 <= i < j < cuts_upto(p, n).len() ==> cuts_upto(p, n)[i] < cuts_upto(p, n)[j],
        forall|c: int| 0 <= c <= n && is_cut(p, c) ==> cuts_upto(p, n).contains(c),
    decreases n + 1,
{
    if n >= 0 {
        lemma_cuts_rise(p, n - 1);
        let before = cuts_upto(p, n - 1);
        let now = cuts_upto(p, n);
        assert forall|c: int| 0 <= c <= n && is_cut(p, c) implies now.contains(c) by {
            if c < n {
                let i = choose|i: int| 0 <= i < before.len() && before[i] == c;
                assert(now[i] == c);
            } else {
                assert(now[now.len() - 1] == c);
            }
        }
    }
}

/// A resolved path is absolute. It starts with the canonical form of an ancestor that
/// exists and ends in the rest of the path exactly as it was written, with at most one
/// separator added between the two. The ancestor is the last one before the first gap in
/// the probes, and the rest is what the path holds after that ancestor and the separators
/// that follow it. Equal inputs resolve to equal paths, for `resolved` is a function of
/// them.
pub proof fn lemma_resolved_shape(path: Seq<char>, probes: Seq<Option<Seq<char>>>)
    requires
        resolved(path, probes) is Ok,
    ensures
        ({
            let k = reach(probes, cuts(path).len() as int);
            let cut = cuts(path)[k - 1];
            let canonical = probes[k - 1]->0;
            let rest = path.skip(after_slashes(path, cut));
            let r = resolved(path, probes)->Ok_0;
            &&& 0 < k <= cuts(path).len()
            &&& k <= probes.len()
            &&& forall|j: int| 0 <= j < k ==> (#[trigger] probes[j]) is Some
            &&& k < cuts(path).len() && k < probes.len() ==> probes[k] is None
            &&& is_cut(path, cut)
            &&& is_absolute(canonical)
            &&& is_absolute(r)
            &&& canonical.is_prefix_of(r)
            &&& ends_with(r, rest)
            &&& r.len() <= canonical.len() + 1 + rest.len()
            &&& rest.is_suffix_of(path)
            &&& forall|j: int| cut <= j < path.len() - rest.len() ==> path[j] == '/'
            &&& rest.len() > 0 ==> rest[0] != '/'
        }),
{
    let limit = cuts(path).len() as int;
    let k = reach(probes, limit);
    lemma_reach(probes, limit, 0);
    lemma_cuts_rise(path, path.len() as int);
    let cut = cuts(path)[k - 1];
    lemma_after_slashes(path, cut);
    let canonical = probes[k - 1]->0;
    let rest = path.skip(after_slashes(path, cut));
    let r = joined(canonical, rest);
    lemma_joined_keeps_root(canonical, rest);
    assert(r.subrange(r.len() - rest.len(), r.len() as int) =~= rest);
    assert(path.subrange(path.len() - rest.len(), path.len() as int) =~= rest);
}

} // verus!
