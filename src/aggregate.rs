//! Merging pages into one keyed collection, and the bounded-concurrency
//! schedule that drives the page requests.
use vstd::prelude::*;
use std::collections::HashMap;
use crate::fetch::FetchError;
use crate::plan::CallDefinition;

verus! {

broadcast use vstd::std_specs::hash::group_hash_axioms;

/// The most page requests in flight at once.
pub const CONCURRENT_REQUESTS: usize = 5;

/// `m` after inserting every item of `items` in order, so that the last
/// item with a given identifier wins.
pub open spec fn merged<T>(m: Map<u128, T>, items: Seq<(u128, T)>) -> Map<u128, T>
    decreases items.len(),
{
    if items.len() == 0 {
        m
    } else {
        merged(m, items.drop_last()).insert(items.last().0, items.last().1)
    }
}

/// The identifiers of `items`.
pub open spec fn keys_of<T>(items: Seq<(u128, T)>) -> Set<u128> {
    Set::new(|k: u128| exists|i: int| 0 <= i < items.len() && #[trigger] items[i].0 == k)
}

/// Inserts every item of a page into the collection, keyed by its
/// identifier; on a repeated identifier the later item wins.
pub fn merge_page<T>(acc: &mut HashMap<u128, T>, page: Vec<(u128, T)>)
    ensures
        final(acc)@ == merged(old(acc)@, page@),
{
    let ghost all = page@;
    let ghost start = old(acc)@;
    let mut rest = page;
    let n = rest.len();
    let mut i: usize = 0;
    while i < n
        invariant
            n == all.len(),
            i <= n,
            rest@ == all.subrange(i as int, n as int),
            acc@ == merged(start, all.subrange(0, i as int)),
        decreases n - i,
    {
        let (k, v) = rest.remove(0);
        acc.insert(k, v);
        proof {
            assert(all.subrange(0, i + 1).drop_last() =~= all.subrange(0, i as int));
            assert(rest@ =~= all.subrange(i + 1, n as int));
        }
        i = i + 1;
    }
    proof {
        assert(all.subrange(0, n as int) =~= all);
    }
}

/// The identifiers in `merged(m, items)` are those of `m` and of `items`.
pub proof fn lemma_merged_keys<T>(m: Map<u128, T>, items: Seq<(u128, T)>)
    ensures
        merged(m, items).dom() == m.dom().union(keys_of(items)),
    decreases items.len(),
{
    if items.len() == 0 {
        assert(keys_of(items) =~= Set::empty());
        assert(m.dom().union(keys_of(items)) =~= m.dom());
    } else {
        let init = items.drop_last();
        lemma_merged_keys(m, init);
        assert(keys_of(items) =~= keys_of(init).insert(items.last().0)) by {
            assert forall|k: u128| keys_of(items).contains(k) implies keys_of(init).insert(
                items.last().0,
            ).contains(k) by {
                let i = choose|i: int| 0 <= i < items.len() && #[trigger] items[i].0 == k;
                if i < items.len() - 1 {
                    assert(init[i].0 == k);
                }
            }
            assert forall|k: u128| keys_of(init).insert(items.last().0).contains(k) implies keys_of(
                items,
            ).contains(k) by {
                if k != items.last().0 {
                    let i = choose|i: int| 0 <= i < init.len() && #[trigger] init[i].0 == k;
                    assert(items[i].0 == k);
                }
            }
        }
        assert(merged(m, items).dom() =~= m.dom().union(keys_of(items)));
    }
}

/// Merging the same page twice gives the same identifiers as merging it once.
pub proof fn lemma_merge_idempotent<T>(m: Map<u128, T>, items: Seq<(u128, T)>)
    ensures
        merged(merged(m, items), items).dom() == merged(m, items).dom(),
{
    lemma_merged_keys(m, items);
    lemma_merged_keys(merged(m, items), items);
    assert(merged(merged(m, items), items).dom() =~= merged(m, items).dom());
}

/// What a page request gave, as a value of specification: the page's items,
/// or why it failed.
pub type Outcome<T> = Result<Seq<(u128, T)>, FetchError>;

/// The specification view of a completed page request.
pub open spec fn outcome_view<T>(outcome: Result<Vec<(u128, T)>, FetchError>) -> Outcome<T> {
    match outcome {
        Ok(items) => Ok(items@),
        Err(e) => Err(e),
    }
}

/// The collection that completed page requests give, in completion order:
/// every successful page merged in turn, failed pages skipped.
pub open spec fn merged_outcomes<T>(outcomes: Seq<Outcome<T>>) -> Map<u128, T>
    decreases outcomes.len(),
{
    if outcomes.len() == 0 {
        Map::empty()
    } else {
        let before = merged_outcomes(outcomes.drop_last());
        match outcomes.last() {
            Ok(items) => merged(before, items),
            Err(_) => before,
        }
    }
}

/// How many of the completed page requests failed.
pub open spec fn failure_count<T>(outcomes: Seq<Outcome<T>>) -> nat
    decreases outcomes.len(),
{
    if outcomes.len() == 0 {
        0
    } else {
        failure_count(outcomes.drop_last()) + if outcomes.last() is Err {
            1nat
        } else {
            0nat
        }
    }
}

/// The identifiers of all successful pages among `outcomes`.
pub open spec fn fetched_keys<T>(outcomes: Seq<Outcome<T>>) -> Set<u128> {
    Set::new(
        |k: u128|
            exists|i: int|
                0 <= i < outcomes.len() && #[trigger] outcomes[i] is Ok && keys_of(
                    outcomes[i]->Ok_0,
                ).contains(k),
    )
}

proof fn lemma_failure_count_bound<T>(outcomes: Seq<Outcome<T>>)
    ensures
        failure_count(outcomes) <= outcomes.len(),
    decreases outcomes.len(),
{
    if outcomes.len() > 0 {
        lemma_failure_count_bound(outcomes.drop_last());
    }
}

/// The schedule of one aggregation: hands out the planned page requests
/// while fewer than `CONCURRENT_REQUESTS` are in flight, and merges each
/// answer as it arrives, in whatever order the answers come. A failed page
/// is counted and skipped; it does not stop the others.
pub struct Aggregation<T> {
    calls: Vec<CallDefinition>,
    next: usize,
    in_flight: usize,
    items: HashMap<u128, T>,
    failures: usize,
    outcomes: Ghost<Seq<Outcome<T>>>,
}

impl<T> Aggregation<T> {
    /// The planned page requests.
    pub closed spec fn calls(&self) -> Seq<CallDefinition> {
        self.calls@
    }

    /// How many page requests have been handed out.
    pub closed spec fn dispatched(&self) -> nat {
        self.next as nat
    }

    /// How many handed-out page requests have not completed yet.
    pub closed spec fn in_flight(&self) -> nat {
        self.in_flight as nat
    }

    /// The completed page requests, in completion order.
    pub closed spec fn outcomes(&self) -> Seq<Outcome<T>> {
        self.outcomes@
    }

    pub closed spec fn wf(&self) -> bool {
        &&& self.next <= self.calls@.len()
        &&& self.in_flight <= self.next
        &&& self.in_flight <= CONCURRENT_REQUESTS
        &&& self.outcomes@.len() == self.next - self.in_flight
        &&& self.items@ == merged_outcomes(self.outcomes@)
        &&& self.failures == failure_count(self.outcomes@)
    }

    /// Starts an aggregation over the planned page requests `calls`.
    pub fn new(calls: Vec<CallDefinition>) -> (r: Self)
        ensures
            r.wf(),
            r.calls() == calls@,
            r.dispatched() == 0,
            r.in_flight() == 0,
            r.outcomes() == Seq::<Outcome<T>>::empty(),
    {
        Aggregation {
            calls,
            next: 0,
            in_flight: 0,
            items: HashMap::new(),
            failures: 0,
            outcomes: Ghost(Seq::empty()),
        }
    }

    /// Hands out the next page request, if one is left and fewer than
    /// `CONCURRENT_REQUESTS` are in flight.
    pub fn next_call(&mut self) -> (r: Option<CallDefinition>)
        requires
            old(self).wf(),
        ensures
            final(self).wf(),
            final(self).calls() == old(self).calls(),
            final(self).outcomes() == old(self).outcomes(),
            if old(self).in_flight() < CONCURRENT_REQUESTS && old(self).dispatched() < old(
                self,
            ).calls().len() {
                &&& r == Some(old(self).calls()[old(self).dispatched() as int])
                &&& final(self).dispatched() == old(self).dispatched() + 1
                &&& final(self).in_flight() == old(self).in_flight() + 1
            } else {
                &&& r is None
                &&& final(self).dispatched() == old(self).dispatched()
                &&& final(self).in_flight() == old(self).in_flight()
            },
    {
        if self.in_flight < CONCURRENT_REQUESTS && self.next < self.calls.len() {
            let call = self.calls[self.next];
            self.next = self.next + 1;
            self.in_flight = self.in_flight + 1;
            Some(call)
        } else {
            None
        }
    }

    /// Records the answer to one handed-out page request: its items are
    /// merged, or its failure is counted.
    pub fn complete(&mut self, outcome: Result<Vec<(u128, T)>, FetchError>)
        requires
            old(self).wf(),
            old(self).in_flight() > 0,
        ensures
            final(self).wf(),
            final(self).calls() == old(self).calls(),
            final(self).dispatched() == old(self).dispatched(),
            final(self).in_flight() == old(self).in_flight() - 1,
            final(self).outcomes() == old(self).outcomes().push(outcome_view(outcome)),
    {
        let ghost seen = self.outcomes@.push(outcome_view(outcome));
        proof {
            assert(seen.drop_last() =~= self.outcomes@);
            lemma_failure_count_bound(self.outcomes@);
        }
        match outcome {
            Ok(items) => {
                merge_page(&mut self.items, items);
            },
            Err(_) => {
                self.failures = self.failures + 1;
            },
        }
        self.in_flight = self.in_flight - 1;
        self.outcomes = Ghost(seen);
    }

    /// How many page requests are in flight.
    pub fn running(&self) -> (r: usize)
        requires
            self.wf(),
        ensures
            r == self.in_flight(),
    {
        self.in_flight
    }

    /// Whether every planned page request has completed.
    pub fn is_finished(&self) -> (r: bool)
        requires
            self.wf(),
        ensures
            r == (self.dispatched() == self.calls().len() && self.in_flight() == 0),
    {
        self.next == self.calls.len() && self.in_flight == 0
    }

    /// The merged collection and the number of failed pages.
    pub fn finish(self) -> (r: (HashMap<u128, T>, usize))
        requires
            self.wf(),
        ensures
            r.0@ == merged_outcomes(self.outcomes()),
            r.1 == failure_count(self.outcomes()),
    {
        (self.items, self.failures)
    }
}

/// At no point are more than `CONCURRENT_REQUESTS` page requests in flight,
/// and once the aggregation is finished every planned request has completed.
pub proof fn lemma_in_flight_bounded<T>(a: Aggregation<T>)
    requires
        a.wf(),
    ensures
        a.in_flight() <= CONCURRENT_REQUESTS,
        a.outcomes().len() + a.in_flight() == a.dispatched(),
        a.dispatched() == a.calls().len() && a.in_flight() == 0 ==> a.outcomes().len()
            == a.calls().len(),
{
}

/// The identifiers that completed page requests give are exactly those of
/// the successful pages.
pub proof fn lemma_merged_outcomes_keys<T>(outcomes: Seq<Outcome<T>>)
    ensures
        merged_outcomes(outcomes).dom() == fetched_keys(outcomes),
    decreases outcomes.len(),
{
    if outcomes.len() == 0 {
        assert(fetched_keys(outcomes) =~= Set::empty());
    } else {
        let init = outcomes.drop_last();
        lemma_merged_outcomes_keys(init);
        let last = outcomes.last();
        assert forall|i: int| 0 <= i < init.len() implies #[trigger] init[i] == outcomes[i] by {}
        if last is Ok {
            lemma_merged_keys(merged_outcomes(init), last->Ok_0);
            assert(fetched_keys(outcomes) =~= fetched_keys(init).union(keys_of(last->Ok_0))) by {
                assert forall|k: u128| #[trigger]
                    fetched_keys(outcomes).contains(k) implies fetched_keys(init).union(
                    keys_of(last->Ok_0),
                ).contains(k) by {
                    let i = choose|i: int|
                        0 <= i < outcomes.len() && #[trigger] outcomes[i] is Ok && keys_of(
                            outcomes[i]->Ok_0,
                        ).contains(k);
                    if i < init.len() {
                        assert(init[i] is Ok);
                    }
                }
                assert forall|k: u128| #[trigger]
                    fetched_keys(init).union(keys_of(last->Ok_0)).contains(k) implies fetched_keys(
                    outcomes,
                ).contains(k) by {
                    if fetched_keys(init).contains(k) {
                        let i = choose|i: int|
                            0 <= i < init.len() && #[trigger] init[i] is Ok && keys_of(
                                init[i]->Ok_0,
                            ).contains(k);
                        assert(outcomes[i] is Ok);
                    } else {
                        assert(outcomes[outcomes.len() - 1] is Ok);
                    }
                }
            }
            assert(merged_outcomes(outcomes).dom() =~= fetched_keys(outcomes));
        } else {
            assert(fetched_keys(outcomes) =~= fetched_keys(init)) by {
                assert forall|k: u128| #[trigger]
                    fetched_keys(outcomes).contains(k) implies fetched_keys(init).contains(k) by {
                    let i = choose|i: int|
                        0 <= i < outcomes.len() && #[trigger] outcomes[i] is Ok && keys_of(
                            outcomes[i]->Ok_0,
                        ).contains(k);
                    assert(init[i] is Ok);
                }
                assert forall|k: u128| #[trigger]
                    fetched_keys(init).contains(k) implies fetched_keys(outcomes).contains(k) by {
                    let i = choose|i: int|
                        0 <= i < init.len() && #[trigger] init[i] is Ok && keys_of(
                            init[i]->Ok_0,
                        ).contains(k);
                    assert(outcomes[i] is Ok);
                }
            }
        }
    }
}

/// When exactly one of the completed page requests failed, exactly one
/// failure is reported, and the collection holds the identifiers of every
/// other page and no others.
pub proof fn lemma_one_failed_page<T>(outcomes: Seq<Outcome<T>>, failed: int)
    requires
        0 <= failed < outcomes.len(),
        outcomes[failed] is Err,
        forall|i: int| 0 <= i < outcomes.len() && i != failed ==> #[trigger] outcomes[i] is Ok,
    ensures
        failure_count(outcomes) == 1,
        forall|i: int|
            0 <= i < outcomes.len() && i != failed ==> keys_of(#[trigger] outcomes[i]->Ok_0).subset_of(
                merged_outcomes(outcomes).dom(),
            ),
        forall|k: u128|
            #[trigger] merged_outcomes(outcomes).contains_key(k) ==> exists|i: int|
                0 <= i < outcomes.len() && i != failed && keys_of(#[trigger] outcomes[i]->Ok_0).contains(k),
    decreases outcomes.len(),
{
    lemma_merged_outcomes_keys(outcomes);
    lemma_failures_counted(outcomes, failed);
    assert forall|i: int|
        0 <= i < outcomes.len() && i != failed implies keys_of(#[trigger] outcomes[i]->Ok_0).subset_of(
        merged_outcomes(outcomes).dom(),
    ) by {
        assert forall|k: u128| keys_of(outcomes[i]->Ok_0).contains(k) implies merged_outcomes(
            outcomes,
        ).dom().contains(k) by {
            assert(fetched_keys(outcomes).contains(k));
        }
    }
    assert forall|k: u128| #[trigger] merged_outcomes(outcomes).contains_key(k) implies exists|i: int|
        0 <= i < outcomes.len() && i != failed && keys_of(#[trigger] outcomes[i]->Ok_0).contains(k) by {
        assert(fetched_keys(outcomes).contains(k));
        let i = choose|i: int|
            0 <= i < outcomes.len() && #[trigger] outcomes[i] is Ok && keys_of(
                outcomes[i]->Ok_0,
            ).contains(k);
        assert(i != failed);
    }
}

proof fn lemma_failures_counted<T>(outcomes: Seq<Outcome<T>>, failed: int)
    requires
        0 <= failed < outcomes.len(),
        outcomes[failed] is Err,
        forall|i: int| 0 <= i < outcomes.len() && i != failed ==> #[trigger] outcomes[i] is Ok,
    ensures
        failure_count(outcomes) == 1,
    decreases outcomes.len(),
{
    let init = outcomes.drop_last();
    if failed == outcomes.len() - 1 {
        lemma_no_failures(init);
    } else {
        assert forall|i: int| 0 <= i < init.len() && i != failed implies #[trigger] init[i] is Ok by {
            assert(outcomes[i] is Ok);
        }
        lemma_failures_counted(init, failed);
        assert(outcomes[outcomes.len() - 1] is Ok);
    }
}

proof fn lemma_no_failures<T>(outcomes: Seq<Outcome<T>>)
    requires
        forall|i: int| 0 <= i < outcomes.len() ==> #[trigger] outcomes[i] is Ok,
    ensures
        failure_count(outcomes) == 0,
    decreases outcomes.len(),
{
    if outcomes.len() > 0 {
        let init = outcomes.drop_last();
        assert forall|i: int| 0 <= i < init.len() implies #[trigger] init[i] is Ok by {
            assert(outcomes[i] is Ok);
        }
        lemma_no_failures(init);
        assert(outcomes[outcomes.len() - 1] is Ok);
    }
}

} // verus!
