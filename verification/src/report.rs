//! The result aggregator: tallies the outcome of every entry, keeps each
//! failure with the name of the entry it came from, and says when the run
//! as a whole counts as failed.

use vstd::prelude::*;
use vstd::multiset::Multiset;
use crate::errors::Error;

verus! {

broadcast use
    vstd::multiset::group_multiset_axioms,
    vstd::multiset::group_multiset_properties,
    vstd::seq_lib::group_to_multiset_ensures,
;

/// How one entry was handled; produced exactly once per entry.
pub enum Outcome {
    Transferred,
    SkippedIsDirectory,
    SkippedAlreadyExists,
    Failed(Error),
}

/// How many of the outcomes are `Transferred`.
pub open spec fn n_transferred(s: Seq<(String, Outcome)>) -> nat
    decreases s.len(),
{
    if s.len() == 0 {
        0
    } else {
        n_transferred(s.drop_last()) + if s.last().1 is Transferred {
            1nat
        } else {
            0nat
        }
    }
}

/// How many of the outcomes are skips of either kind.
pub open spec fn n_skipped(s: Seq<(String, Outcome)>) -> nat
    decreases s.len(),
{
    if s.len() == 0 {
        0
    } else {
        n_skipped(s.drop_last()) + if s.last().1 is SkippedIsDirectory || s.last().1
            is SkippedAlreadyExists {
            1nat
        } else {
            0nat
        }
    }
}

/// How many of the outcomes are failures.
pub open spec fn n_failed(s: Seq<(String, Outcome)>) -> nat
    decreases s.len(),
{
    if s.len() == 0 {
        0
    } else {
        n_failed(s.drop_last()) + if s.last().1 is Failed {
            1nat
        } else {
            0nat
        }
    }
}

/// The failed entries in input order, each with its name and error.
pub open spec fn failure_list(s: Seq<(String, Outcome)>) -> Seq<(String, Error)>
    decreases s.len(),
{
    if s.len() == 0 {
        Seq::empty()
    } else {
        failure_list(s.drop_last()) + match s.last().1 {
            Outcome::Failed(e) => seq![(s.last().0, e)],
            _ => Seq::empty(),
        }
    }
}

/// The final tally of a run.
pub struct Report {
    pub transferred: usize,
    pub skipped: usize,
    pub failures: Vec<(String, Error)>,
}

impl Report {
    /// The run counts as failed exactly when some entry failed; skips are
    /// not failures.
    pub fn is_failure(&self) -> (b: bool)
        ensures
            b == (self.failures@.len() > 0),
    {
        self.failures.len() > 0
    }
}

/// Tallies one result per entry into a report: the transferred and skipped
/// counts, and every failure with its entry's name, in input order.
pub fn aggregate(results: &Vec<(String, Outcome)>) -> (r: Report)
    ensures
        r.transferred == n_transferred(results@),
        r.skipped == n_skipped(results@),
        r.failures@ == failure_list(results@),
{
    let mut transferred: usize = 0;
    let mut skipped: usize = 0;
    let mut failures: Vec<(String, Error)> = Vec::new();
    let n = results.len();
    let mut i: usize = 0;
    proof {
        assert(results@.take(0) =~= Seq::<(String, Outcome)>::empty());
    }
    while i < n
        invariant
            n == results@.len(),
            i <= n,
            transferred <= i,
            skipped <= i,
            transferred == n_transferred(results@.take(i as int)),
            skipped == n_skipped(results@.take(i as int)),
            failures@ == failure_list(results@.take(i as int)),
        decreases n - i,
    {
        let ghost prev = failures@;
        let entry: &(String, Outcome) = &results[i];
        match &entry.1 {
            Outcome::Transferred => {
                transferred = transferred + 1;
            },
            Outcome::SkippedIsDirectory => {
                skipped = skipped + 1;
            },
            Outcome::SkippedAlreadyExists => {
                skipped = skipped + 1;
            },
            Outcome::Failed(e) => {
                failures.push((entry.0.clone(), e.duplicate()));
            },
        }
        proof {
            assert(results@.take(i + 1).drop_last() =~= results@.take(i as int));
            assert(results@.take(i + 1).last() == results@[i as int]);
            if results@[i as int].1 is Failed {
                assert(failures@ =~= failure_list(results@.take(i + 1)));
            }
        }
        i += 1;
    }
    proof {
        assert(results@.take(n as int) =~= results@);
    }
    Report { transferred, skipped, failures }
}

/// Every entry yields exactly one outcome: the three tallies together
/// exhaust the result list, and each failure is reported exactly once.
pub proof fn lemma_outcome_conservation(s: Seq<(String, Outcome)>)
    ensures
        n_transferred(s) + n_skipped(s) + n_failed(s) == s.len(),
        failure_list(s).len() == n_failed(s),
    decreases s.len(),
{
    if s.len() > 0 {
        lemma_outcome_conservation(s.drop_last());
    }
}

/// The predicate a transferred outcome satisfies.
pub open spec fn transferred_pred() -> spec_fn((String, Outcome)) -> bool {
    |p: (String, Outcome)| p.1 is Transferred
}

/// The predicate a skipped outcome satisfies.
pub open spec fn skipped_pred() -> spec_fn((String, Outcome)) -> bool {
    |p: (String, Outcome)| p.1 is SkippedIsDirectory || p.1 is SkippedAlreadyExists
}

/// The predicate a failed outcome satisfies.
pub open spec fn failed_pred() -> spec_fn((String, Outcome)) -> bool {
    |p: (String, Outcome)| p.1 is Failed
}

proof fn lemma_filter_insert<V>(m: Multiset<V>, f: spec_fn(V) -> bool, x: V)
    ensures
        m.insert(x).filter(f) == (if f(x) {
            m.filter(f).insert(x)
        } else {
            m.filter(f)
        }),
{
    if f(x) {
        assert(m.insert(x).filter(f) =~= m.filter(f).insert(x));
    } else {
        assert(m.insert(x).filter(f) =~= m.filter(f));
    }
}

/// The tallies depend only on the multiset of results, not on their order.
proof fn lemma_counts_from_multiset(s: Seq<(String, Outcome)>)
    ensures
        n_transferred(s) == s.to_multiset().filter(transferred_pred()).len(),
        n_skipped(s) == s.to_multiset().filter(skipped_pred()).len(),
        n_failed(s) == s.to_multiset().filter(failed_pred()).len(),
    decreases s.len(),
{
    if s.len() == 0 {
        assert(s.to_multiset().len() == 0);
        assert(s.to_multiset().filter(transferred_pred()) =~= Multiset::<(String, Outcome)>::empty());
        assert(s.to_multiset().filter(skipped_pred()) =~= Multiset::<(String, Outcome)>::empty());
        assert(s.to_multiset().filter(failed_pred()) =~= Multiset::<(String, Outcome)>::empty());
    } else {
        let pre = s.drop_last();
        let x = s.last();
        lemma_counts_from_multiset(pre);
        assert(s =~= pre.push(x));
        assert(s.to_multiset() == pre.to_multiset().insert(x));
        lemma_filter_insert(pre.to_multiset(), transferred_pred(), x);
        lemma_filter_insert(pre.to_multiset(), skipped_pred(), x);
        lemma_filter_insert(pre.to_multiset(), failed_pred(), x);
    }
}

/// Concurrency does not change the tally: two runs whose per-entry results
/// are the same up to order — as when the same entries are processed by
/// one worker or by many — aggregate to the same counts.
pub proof fn lemma_counts_schedule_independent(
    s1: Seq<(String, Outcome)>,
    s2: Seq<(String, Outcome)>,
)
    requires
        s1.to_multiset() == s2.to_multiset(),
    ensures
        n_transferred(s1) == n_transferred(s2),
        n_skipped(s1) == n_skipped(s2),
        n_failed(s1) == n_failed(s2),
{
    lemma_counts_from_multiset(s1);
    lemma_counts_from_multiset(s2);
}

} // verus!
