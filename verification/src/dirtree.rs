//! The directory-creation cache: remembers which destination directories,
//! given as sequences of path segments relative to the target root, have
//! already been confirmed to exist on disk.
//!
//! The cache itself performs no filesystem work. `mkdir_all` reports, for a
//! requested path, the prefixes that still have to be created on disk,
//! shallowest first; the caller creates each one (tolerating directories
//! that already exist) and records each success with `record_created`.
//! Entries therefore enter the cache only after a successful
//! creation-or-confirmed-existence check. Callers that share one cache
//! across threads serialize access to it; the lemmas at the end of this
//! module state what that serialization guarantees.

use vstd::prelude::*;

verus! {

/// The prefixes of `d` of length `1..=k` that are not in `paths`, ordered
/// shallowest first.
pub open spec fn missing_prefixes(
    paths: Set<Seq<Seq<char>>>,
    d: Seq<Seq<char>>,
    k: int,
) -> Seq<Seq<Seq<char>>>
    decreases k,
{
    if k <= 0 {
        Seq::empty()
    } else if paths.contains(d.take(k)) {
        missing_prefixes(paths, d, k - 1)
    } else {
        missing_prefixes(paths, d, k - 1).push(d.take(k))
    }
}

pub struct DirTree {
    created: Vec<Vec<String>>,
}

impl DirTree {
    /// The set of directory paths (as segment sequences) known created.
    pub closed spec fn paths(&self) -> Set<Seq<Seq<char>>> {
        self.created.deep_view().to_set()
    }

    /// A fresh cache: nothing is known to exist yet.
    pub fn new() -> (t: DirTree)
        ensures
            t.paths() == Set::<Seq<Seq<char>>>::empty(),
    {
        let t = DirTree { created: Vec::new() };
        proof {
            assert(t.paths() =~= Set::<Seq<Seq<char>>>::empty());
        }
        t
    }

    /// Whether `p` is recorded as created.
    pub fn contains_path(&self, p: &Vec<String>) -> (b: bool)
        ensures
            b == self.paths().contains(p.deep_view()),
    {
        let n = self.created.len();
        let mut i: usize = 0;
        while i < n
            invariant
                n == self.created@.len(),
                i <= n,
                forall|j: int| 0 <= j < i ==> self.created.deep_view()[j] != p.deep_view(),
            decreases n - i,
        {
            if vec_str_eq(&self.created[i], p) {
                proof {
                    assert(self.created.deep_view()[i as int] == p.deep_view());
                    assert(self.created.deep_view().contains(p.deep_view()));
                }
                return true;
            }
            i += 1;
        }
        proof {
            assert(!self.created.deep_view().contains(p.deep_view()));
        }
        false
    }

    /// Walks `dir` level by level and returns the directories that still
    /// have to be created on disk, shallowest first. Consults only the
    /// cache; prefixes already recorded cost no creation request.
    pub fn mkdir_all(&self, dir: &Vec<String>) -> (missing: Vec<Vec<String>>)
        ensures
            missing.deep_view() == missing_prefixes(
                self.paths(),
                dir.deep_view(),
                dir.deep_view().len() as int,
            ),
    {
        let mut missing: Vec<Vec<String>> = Vec::new();
        let n = dir.len();
        let mut k: usize = 0;
        proof {
            assert(missing.deep_view() =~= missing_prefixes(self.paths(), dir.deep_view(), 0));
        }
        while k < n
            invariant
                n == dir@.len(),
                k <= n,
                missing.deep_view() == missing_prefixes(self.paths(), dir.deep_view(), k as int),
            decreases n - k,
        {
            let mut pref: Vec<String> = Vec::new();
            let mut j: usize = 0;
            proof {
                assert(pref.deep_view() =~= dir.deep_view().take(0));
            }
            while j < k + 1
                invariant
                    n == dir@.len(),
                    k < n,
                    j <= k + 1,
                    pref.deep_view() == dir.deep_view().take(j as int),
                decreases k + 1 - j,
            {
                let ghost pre = pref.deep_view();
                pref.push(dir[j].clone());
                proof {
                    assert(pref.deep_view() =~= pre.push(dir.deep_view()[j as int]));
                    assert(dir.deep_view().take(j + 1) =~= dir.deep_view().take(j as int).push(
                        dir.deep_view()[j as int],
                    ));
                }
                j += 1;
            }
            let ghost prev = missing.deep_view();
            if !self.contains_path(&pref) {
                missing.push(pref);
                proof {
                    assert(missing.deep_view() =~= prev.push(dir.deep_view().take(k + 1)));
                }
            }
            k += 1;
        }
        missing
    }

    /// Records that the directory `prefix` now exists on disk.
    pub fn record_created(&mut self, prefix: &Vec<String>)
        ensures
            final(self).paths() == old(self).paths().insert(prefix.deep_view()),
    {
        let p = clone_segments(prefix);
        self.created.push(p);
        proof {
            let od = old(self).created.deep_view();
            let nd = self.created.deep_view();
            assert(nd =~= od.push(prefix.deep_view()));
            assert forall|y: Seq<Seq<char>>|
                nd.to_set().contains(y) == old(self).paths().insert(
                    prefix.deep_view(),
                ).contains(y) by {
                if nd.contains(y) {
                    let i = choose|i: int| 0 <= i < nd.len() && nd[i] == y;
                    if i < od.len() {
                        assert(od[i] == y);
                        assert(od.contains(y));
                    } else {
                        assert(y == prefix.deep_view());
                    }
                }
                if od.contains(y) {
                    let i = choose|i: int| 0 <= i < od.len() && od[i] == y;
                    assert(nd[i] == y);
                    assert(nd.contains(y));
                }
                if y == prefix.deep_view() {
                    assert(nd[od.len() as int] == y);
                    assert(nd.contains(y));
                }
            }
            assert(self.paths() =~= old(self).paths().insert(prefix.deep_view()));
        }
    }
}

/// Element-for-element copy of a segment path.
fn clone_segments(v: &Vec<String>) -> (out: Vec<String>)
    ensures
        out@ == v@,
{
    let mut out: Vec<String> = Vec::new();
    let n = v.len();
    let mut i: usize = 0;
    while i < n
        invariant
            n == v@.len(),
            i <= n,
            out@ == v@.take(i as int),
        decreases n - i,
    {
        out.push(v[i].clone());
        proof {
            assert(v@.take(i + 1) =~= v@.take(i as int).push(v@[i as int]));
        }
        i += 1;
    }
    proof {
        assert(v@.take(n as int) =~= v@);
    }
    out
}

/// Whether two segment paths spell the same sequence of segments.
fn vec_str_eq(a: &Vec<String>, b: &Vec<String>) -> (r: bool)
    ensures
        r == (a.deep_view() == b.deep_view()),
{
    let n = a.len();
    if n != b.len() {
        proof {
            assert(a.deep_view().len() != b.deep_view().len());
        }
        return false;
    }
    let mut i: usize = 0;
    while i < n
        invariant
            n == a@.len(),
            n == b@.len(),
            i <= n,
            forall|j: int| 0 <= j < i ==> a.deep_view()[j] == b.deep_view()[j],
        decreases n - i,
    {
        let ai: &String = &a[i];
        let bi: &String = &b[i];
        if !(*ai == *bi) {
            proof {
                assert(a.deep_view()[i as int] != b.deep_view()[i as int]);
            }
            return false;
        }
        i += 1;
    }
    proof {
        assert(a.deep_view() =~= b.deep_view());
    }
    true
}

/// Exactly the uncached prefixes are reported: `p` is among the directories
/// to create if and only if it is a prefix of the request (of some depth
/// `i <= k`) that the cache does not hold.
pub proof fn lemma_missing_prefixes_membership(
    paths: Set<Seq<Seq<char>>>,
    d: Seq<Seq<char>>,
    k: int,
    p: Seq<Seq<char>>,
)
    ensures
        missing_prefixes(paths, d, k).contains(p) <==> exists|i: int|
            1 <= i <= k && p == d.take(i) && !paths.contains(d.take(i)),
    decreases k,
{
    if k > 0 {
        lemma_missing_prefixes_membership(paths, d, k - 1, p);
        let m = missing_prefixes(paths, d, k);
        let prev = missing_prefixes(paths, d, k - 1);
        if !paths.contains(d.take(k)) {
            assert(m == prev.push(d.take(k)));
            if m.contains(p) {
                let i = choose|i: int| 0 <= i < m.len() && m[i] == p;
                if i < prev.len() {
                    assert(prev[i] == p);
                    assert(prev.contains(p));
                }
            }
            if exists|i: int| 1 <= i <= k && p == d.take(i) && !paths.contains(d.take(i)) {
                let i = choose|i: int|
                    1 <= i <= k && p == d.take(i) && !paths.contains(d.take(i));
                if i == k {
                    assert(m[m.len() - 1] == p);
                    assert(m.contains(p));
                } else {
                    assert(prev.contains(p));
                    let x = choose|x: int| 0 <= x < prev.len() && prev[x] == p;
                    assert(m[x] == p);
                    assert(m.contains(p));
                }
            }
        } else {
            if exists|i: int| 1 <= i <= k && p == d.take(i) && !paths.contains(d.take(i)) {
                let i = choose|i: int|
                    1 <= i <= k && p == d.take(i) && !paths.contains(d.take(i));
                assert(i < k);
            }
        }
    }
}

/// Once every prefix of the path is cached, a further request for the same
/// path asks for no creation at all.
pub proof fn lemma_all_cached_nothing_missing(
    paths: Set<Seq<Seq<char>>>,
    d: Seq<Seq<char>>,
    k: int,
)
    requires
        forall|i: int| 1 <= i <= k ==> paths.contains(#[trigger] d.take(i)),
    ensures
        missing_prefixes(paths, d, k) == Seq::<Seq<Seq<char>>>::empty(),
    decreases k,
{
    if k > 0 {
        lemma_all_cached_nothing_missing(paths, d, k - 1);
    } else {
        assert(missing_prefixes(paths, d, k) =~= Seq::<Seq<Seq<char>>>::empty());
    }
}

/// After one request's reported directories are all created and recorded,
/// every prefix of the requested path is cached.
pub proof fn lemma_recording_completes_path(paths: Set<Seq<Seq<char>>>, d: Seq<Seq<char>>)
    ensures
        forall|i: int|
            1 <= i <= d.len() ==> paths.union(
                missing_prefixes(paths, d, d.len() as int).to_set(),
            ).contains(#[trigger] d.take(i)),
{
    let m = missing_prefixes(paths, d, d.len() as int);
    assert forall|i: int|
        1 <= i <= d.len() implies paths.union(m.to_set()).contains(#[trigger] d.take(i)) by {
        lemma_missing_prefixes_membership(paths, d, d.len() as int, d.take(i));
        if !paths.contains(d.take(i)) {
            assert(m.contains(d.take(i)));
        }
    }
}

/// Idempotence of ensure-created: create a path, record what was asked for,
/// and a second identical request performs no creation.
pub proof fn lemma_second_call_creates_nothing(paths: Set<Seq<Seq<char>>>, d: Seq<Seq<char>>)
    ensures
        missing_prefixes(
            paths.union(missing_prefixes(paths, d, d.len() as int).to_set()),
            d,
            d.len() as int,
        ) == Seq::<Seq<Seq<char>>>::empty(),
{
    lemma_recording_completes_path(paths, d);
    lemma_all_cached_nothing_missing(
        paths.union(missing_prefixes(paths, d, d.len() as int).to_set()),
        d,
        d.len() as int,
    );
}

/// One request never asks to create the same directory twice: the reported
/// prefixes all have distinct depths.
pub proof fn lemma_no_duplicate_creations(paths: Set<Seq<Seq<char>>>, d: Seq<Seq<char>>, k: int)
    requires
        k <= d.len(),
    ensures
        missing_prefixes(paths, d, k).no_duplicates(),
    decreases k,
{
    if k > 0 {
        lemma_no_duplicate_creations(paths, d, k - 1);
        let prev = missing_prefixes(paths, d, k - 1);
        if !paths.contains(d.take(k)) {
            assert forall|i: int| 0 <= i < prev.len() implies prev[i] != d.take(k) by {
                assert(prev.contains(prev[i]));
                lemma_missing_prefixes_membership(paths, d, k - 1, prev[i]);
                let w = choose|w: int|
                    1 <= w <= k - 1 && prev[i] == d.take(w) && !paths.contains(d.take(w));
                assert(prev[i].len() == w);
                assert(d.take(k).len() == k);
            }
        }
    }
}

/// Two requests serialized on the cache — the shape of two concurrent
/// ensure-created calls under the cache's lock — never ask to create the
/// same directory twice, even where the paths share ancestors; and after
/// both finish and record their work, every prefix of both paths is cached.
pub proof fn lemma_serialized_requests(
    paths: Set<Seq<Seq<char>>>,
    d1: Seq<Seq<char>>,
    d2: Seq<Seq<char>>,
)
    ensures
        ({
            let m1 = missing_prefixes(paths, d1, d1.len() as int);
            let after1 = paths.union(m1.to_set());
            let m2 = missing_prefixes(after1, d2, d2.len() as int);
            let after2 = after1.union(m2.to_set());
            &&& forall|p: Seq<Seq<char>>| !(m1.to_set().contains(p) && m2.to_set().contains(p))
            &&& forall|i: int| 1 <= i <= d1.len() ==> after2.contains(#[trigger] d1.take(i))
            &&& forall|i: int| 1 <= i <= d2.len() ==> after2.contains(#[trigger] d2.take(i))
        }),
{
    let m1 = missing_prefixes(paths, d1, d1.len() as int);
    let after1 = paths.union(m1.to_set());
    let m2 = missing_prefixes(after1, d2, d2.len() as int);
    let after2 = after1.union(m2.to_set());
    assert forall|p: Seq<Seq<char>>| !(m1.to_set().contains(p) && m2.to_set().contains(p)) by {
        if m2.contains(p) {
            lemma_missing_prefixes_membership(after1, d2, d2.len() as int, p);
            let w = choose|w: int|
                1 <= w <= d2.len() && p == d2.take(w) && !after1.contains(d2.take(w));
            assert(!after1.contains(p));
        }
    }
    lemma_recording_completes_path(paths, d1);
    assert forall|i: int| 1 <= i <= d1.len() implies after2.contains(#[trigger] d1.take(i)) by {
        assert(after1.contains(d1.take(i)));
    }
    lemma_recording_completes_path(after1, d2);
}

} // verus!
