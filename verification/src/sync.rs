//! The sync orchestrator: driving listing, membership check, fetch and
//! store under a resume policy.
//!
//! The orchestrator decides, URL by URL in discovery order, whether to
//! fetch a resource, skip it, or stop the whole run. Its driver pulls
//! the next URL from the crawler, asks the ledger for membership, and
//! performs the decided action; a fetch or store failure is fatal to
//! the run.

use vstd::prelude::*;

verus! {

/// The resume policy of one sync run.
#[derive(Clone, Copy, Debug, PartialEq, Eq, Structural)]
pub struct SyncPolicy {
    /// Scan every discovered resource, skipping known ones, instead of
    /// halting at the first known one.
    pub check_all: bool,
    /// Ignore ledger membership entirely and ingest everything anew.
    pub resync_all: bool,
}

/// What the orchestrator does with one discovered URL.
#[derive(Clone, Copy, Debug, PartialEq, Eq, Structural)]
pub enum SyncAction {
    /// Fetch the resource and store the dataset.
    Fetch,
    /// Leave the resource alone and go on with the next one.
    Skip,
    /// End the whole run: the archive is chronological, so everything
    /// after the first known resource is known too.
    Stop,
}

/// The decision for one URL: fetch anything unknown (or everything,
/// resyncing); a known URL is skipped when every resource is to be
/// checked, else it stops the run.
pub open spec fn spec_decide(policy: SyncPolicy, known: bool) -> SyncAction {
    if policy.resync_all || !known {
        SyncAction::Fetch
    } else if policy.check_all {
        SyncAction::Skip
    } else {
        SyncAction::Stop
    }
}

/// The sequence of URLs a run fetches, walking `urls` in discovery
/// order against the URLs `known` to the ledger; each fetched URL
/// enters the ledger before the next decision.
pub open spec fn spec_fetched(
    policy: SyncPolicy,
    urls: Seq<Seq<char>>,
    known: Set<Seq<char>>,
) -> Seq<Seq<char>>
    decreases urls.len(),
{
    if urls.len() == 0 {
        Seq::<Seq<char>>::empty()
    } else {
        match spec_decide(policy, known.contains(urls.first())) {
            SyncAction::Stop => Seq::<Seq<char>>::empty(),
            SyncAction::Skip => spec_fetched(policy, urls.drop_first(), known),
            SyncAction::Fetch => seq![urls.first()] + spec_fetched(
                policy,
                urls.drop_first(),
                known.insert(urls.first()),
            ),
        }
    }
}

/// A run only ever fetches URLs from the listing.
pub proof fn lemma_fetched_from_listing(
    policy: SyncPolicy,
    urls: Seq<Seq<char>>,
    known: Set<Seq<char>>,
)
    ensures
        forall|u: Seq<char>| #[trigger] spec_fetched(policy, urls, known).contains(u)
            ==> urls.contains(u),
    decreases urls.len(),
{
    if urls.len() > 0 {
        let first = urls.first();
        let rest = urls.drop_first();
        lemma_fetched_from_listing(policy, rest, known);
        lemma_fetched_from_listing(policy, rest, known.insert(first));
        assert forall|u: Seq<char>| #[trigger] spec_fetched(policy, urls, known).contains(u)
            implies urls.contains(u) by {
            let f = spec_fetched(policy, urls, known);
            if u == first {
                assert(urls[0] == u);
            } else {
                match spec_decide(policy, known.contains(first)) {
                    SyncAction::Stop => {},
                    SyncAction::Skip => {
                        assert(spec_fetched(policy, rest, known).contains(u));
                        assert(rest.contains(u));
                        let k = choose|k: int| 0 <= k < rest.len() && rest[k] == u;
                        assert(urls[k + 1] == u);
                    },
                    SyncAction::Fetch => {
                        let tail = spec_fetched(policy, rest, known.insert(first));
                        let k = choose|k: int| 0 <= k < f.len() && f[k] == u;
                        assert(k > 0) by {
                            assert(f[0] == first);
                        }
                        assert(tail[k - 1] == u);
                        assert(tail.contains(u));
                        assert(rest.contains(u));
                        let m = choose|m: int| 0 <= m < rest.len() && rest[m] == u;
                        assert(urls[m + 1] == u);
                    },
                }
            }
        }
    }
}

/// Under stop-at-first-known, a run halts at any already-known URL:
/// what it fetches is decided by the listing prefix before that URL
/// alone, so nothing discovered after it is ever fetched.
pub proof fn lemma_stop_at_first_known(
    policy: SyncPolicy,
    urls: Seq<Seq<char>>,
    known: Set<Seq<char>>,
    i: int,
)
    requires
        !policy.check_all,
        !policy.resync_all,
        0 <= i < urls.len(),
        known.contains(urls[i]),
    ensures
        spec_fetched(policy, urls, known) == spec_fetched(policy, urls.subrange(0, i), known),
    decreases urls.len(),
{
    let first = urls.first();
    let rest = urls.drop_first();
    if i == 0 {
        assert(spec_decide(policy, known.contains(first)) is Stop);
        assert(urls.subrange(0, 0).len() == 0);
    } else {
        assert(rest[i - 1] == urls[i]);
        if known.contains(first) {
            assert(urls.subrange(0, i).first() == first);
        } else {
            lemma_stop_at_first_known(policy, rest, known.insert(first), i - 1);
            assert(rest.subrange(0, i - 1) =~= urls.subrange(0, i).drop_first());
            assert(urls.subrange(0, i).first() == first);
        }
    }
}

/// Re-running a sync whose very first discovered resource is already
/// known performs no fetch at all under stop-at-first-known — in
/// particular a run over an unchanged listing against the ledger that
/// ingested it.
pub proof fn lemma_rerun_fetches_nothing(
    policy: SyncPolicy,
    urls: Seq<Seq<char>>,
    known: Set<Seq<char>>,
)
    requires
        !policy.check_all,
        !policy.resync_all,
        forall|i: int| 0 <= i < urls.len() ==> known.contains(#[trigger] urls[i]),
    ensures
        spec_fetched(policy, urls, known) == Seq::<Seq<char>>::empty(),
{
    if urls.len() > 0 {
        assert(known.contains(urls[0]));
        assert(spec_decide(policy, known.contains(urls.first())) is Stop);
    }
}

/// Under check-all, a run over a duplicate-free listing fetches
/// exactly the URLs the ledger does not know, the ones discovered
/// after a known one included.
pub proof fn lemma_check_all_fetches_unknown(
    policy: SyncPolicy,
    urls: Seq<Seq<char>>,
    known: Set<Seq<char>>,
)
    requires
        policy.check_all,
        !policy.resync_all,
        forall|i: int, j: int| 0 <= i < j < urls.len() ==> urls[i] != urls[j],
    ensures
        forall|i: int| 0 <= i < urls.len() ==> (spec_fetched(policy, urls, known).contains(
            #[trigger] urls[i],
        ) <==> !known.contains(urls[i])),
    decreases urls.len(),
{
    if urls.len() > 0 {
        let first = urls.first();
        let rest = urls.drop_first();
        let f = spec_fetched(policy, urls, known);
        assert(forall|i: int, j: int| 0 <= i < j < rest.len() ==> rest[i] != rest[j]) by {
            assert(forall|i: int| 0 <= i < rest.len() ==> rest[i] == urls[i + 1]);
        }
        if known.contains(first) {
            lemma_check_all_fetches_unknown(policy, rest, known);
            assert(f == spec_fetched(policy, rest, known));
            lemma_fetched_from_listing(policy, rest, known);
            assert forall|i: int| 0 <= i < urls.len() implies (f.contains(#[trigger] urls[i])
                <==> !known.contains(urls[i])) by {
                if i == 0 {
                    if f.contains(first) {
                        assert(rest.contains(first));
                        let k = choose|k: int| 0 <= k < rest.len() && rest[k] == first;
                        assert(urls[k + 1] == urls[0]);
                        assert(false);
                    }
                } else {
                    assert(rest[i - 1] == urls[i]);
                }
            }
        } else {
            lemma_check_all_fetches_unknown(policy, rest, known.insert(first));
            lemma_fetched_from_listing(policy, rest, known.insert(first));
            let tail = spec_fetched(policy, rest, known.insert(first));
            assert(f == seq![first] + tail);
            assert forall|i: int| 0 <= i < urls.len() implies (f.contains(#[trigger] urls[i])
                <==> !known.contains(urls[i])) by {
                if i == 0 {
                    assert(f[0] == first);
                    assert(f.contains(urls[0]));
                } else {
                    assert(rest[i - 1] == urls[i]);
                    assert(urls[i] != first);
                    assert(known.insert(first).contains(urls[i]) == known.contains(urls[i]));
                    assert(tail.contains(urls[i]) <==> !known.contains(urls[i]));
                    if tail.contains(urls[i]) {
                        let k = choose|k: int| 0 <= k < tail.len() && tail[k] == urls[i];
                        assert(f[k + 1] == urls[i]);
                    }
                    if f.contains(urls[i]) {
                        let k = choose|k: int| 0 <= k < f.len() && f[k] == urls[i];
                        assert(k > 0);
                        assert(tail[k - 1] == urls[i]);
                    }
                }
            }
        }
    }
}

/// The orchestrator's run state: the policy it was started with, and
/// whether it has ended the run.
pub struct Orchestrator {
    policy: SyncPolicy,
    done: bool,
}

impl Orchestrator {
    /// The policy this run was started with.
    pub closed spec fn spec_policy(&self) -> SyncPolicy {
        self.policy
    }

    /// Whether the run has ended.
    pub closed spec fn spec_done(&self) -> bool {
        self.done
    }

    /// Starts a run under a policy.
    pub fn new(policy: SyncPolicy) -> (o: Orchestrator)
        ensures
            o.spec_policy() == policy,
            !o.spec_done(),
    {
        Orchestrator { policy, done: false }
    }

    /// Whether the run has ended; after `Stop` the driver must pull no
    /// further URL.
    pub fn finished(&self) -> (b: bool)
        ensures
            b == self.spec_done(),
    {
        self.done
    }

    /// Decides the action for the next discovered URL, given whether
    /// the ledger knows it; `Stop` ends the run.
    pub fn on_url(&mut self, known: bool) -> (a: SyncAction)
        requires
            !old(self).spec_done(),
        ensures
            a == spec_decide(old(self).spec_policy(), known),
            final(self).spec_policy() == old(self).spec_policy(),
            final(self).spec_done() == (a is Stop),
    {
        let a = if self.policy.resync_all || !known {
            SyncAction::Fetch
        } else if self.policy.check_all {
            SyncAction::Skip
        } else {
            SyncAction::Stop
        };
        if let SyncAction::Stop = a {
            self.done = true;
        }
        a
    }
}

} // verus!
