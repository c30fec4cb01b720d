//! Fetching the descriptors of many items with a bound on the requests in flight, and the
//! tally of what came back.
//!
//! [`FetchPlan`] decides which item to start next and takes note of each completion;
//! whoever performs the requests asks it before each start and tells it after each end.
//! [`FetchRun`] pairs a plan with a [`Report`], so that every item is accounted for exactly
//! once, whatever order the requests end in.
use vstd::prelude::*;

use crate::descriptor::{item_request, RestDescription};
use crate::list::{DirectoryItem, Request};
use crate::Error;

verus! {

/// Where one item stands.
#[derive(Clone, Copy, PartialEq, Eq, Structural, Debug)]
pub enum Slot {
    /// Not started yet.
    Pending,
    /// Its request is in flight.
    InFlight,
    /// Its request has ended, with or without success.
    Done,
}

/// The number of slots in `s` that stand at `x`.
pub open spec fn count(s: Seq<Slot>, x: Slot) -> nat
    decreases s.len(),
{
    if s.len() == 0 {
        0
    } else {
        count(s.drop_last(), x) + if s.last() == x {
            1nat
        } else {
            0nat
        }
    }
}

/// How a count changes when one slot moves.
pub proof fn lemma_count_update(s: Seq<Slot>, i: int, y: Slot, x: Slot)
    requires
        0 <= i < s.len(),
    ensures
        count(s.update(i, y), x) + (if s[i] == x {
            1nat
        } else {
            0nat
        }) == count(s, x) + (if y == x {
            1nat
        } else {
            0nat
        }),
    decreases s.len(),
{
    if i == s.len() - 1 {
        assert(s.update(i, y).drop_last() =~= s.drop_last());
    } else {
        lemma_count_update(s.drop_last(), i, y, x);
        assert(s.update(i, y).drop_last() =~= s.drop_last().update(i, y));
    }
}

/// A count is at most the length.
pub proof fn lemma_count_bound(s: Seq<Slot>, x: Slot)
    ensures
        count(s, x) <= s.len(),
    decreases s.len(),
{
    if s.len() > 0 {
        lemma_count_bound(s.drop_last(), x);
    }
}

/// The count of every slot where all stand at `x`.
pub proof fn lemma_count_all(s: Seq<Slot>, x: Slot)
    requires
        forall|i: int| 0 <= i < s.len() ==> s[i] == x,
    ensures
        count(s, x) == s.len(),
    decreases s.len(),
{
    if s.len() > 0 {
        lemma_count_all(s.drop_last(), x);
    }
}

/// No slot stands at `x`.
pub proof fn lemma_count_none(s: Seq<Slot>, x: Slot)
    requires
        forall|i: int| 0 <= i < s.len() ==> s[i] != x,
    ensures
        count(s, x) == 0,
    decreases s.len(),
{
    if s.len() > 0 {
        lemma_count_none(s.drop_last(), x);
    }
}

/// The three counts add up to the length.
pub proof fn lemma_count_sum(s: Seq<Slot>)
    ensures
        count(s, Slot::Pending) + count(s, Slot::InFlight) + count(s, Slot::Done) == s.len(),
    decreases s.len(),
{
    if s.len() > 0 {
        lemma_count_sum(s.drop_last());
    }
}

/// Which items to start, and when: items start in their order, and never more than
/// `limit` of them are in flight at once.
pub struct FetchPlan {
    slots: Vec<Slot>,
    limit: usize,
    next: usize,
    in_flight: usize,
    done: usize,
}

impl FetchPlan {
    /// Where each item stands.
    pub closed spec fn slots(&self) -> Seq<Slot> {
        self.slots@
    }

    /// The most requests that may be in flight at once.
    pub closed spec fn limit(&self) -> nat {
        self.limit as nat
    }

    /// The number of items.
    pub open spec fn total(&self) -> nat {
        self.slots().len()
    }

    /// The number of requests in flight.
    pub open spec fn in_flight(&self) -> nat {
        count(self.slots(), Slot::InFlight)
    }

    /// The number of items whose request has ended.
    pub open spec fn completed(&self) -> nat {
        count(self.slots(), Slot::Done)
    }

    /// The number of items started so far.
    pub open spec fn started(&self) -> nat {
        (self.total() - count(self.slots(), Slot::Pending)) as nat
    }

    /// Whether another item may start now.
    pub open spec fn can_start(&self) -> bool {
        self.started() < self.total() && self.in_flight() < self.limit()
    }

    /// Whether every item's request has ended.
    pub open spec fn finished(&self) -> bool {
        self.completed() == self.total()
    }

    /// The items that have started are a prefix of the items.
    pub open spec fn started_in_order(&self) -> bool {
        forall|i: int, j: int|
            0 <= i < j < self.total() && self.slots()[i] == Slot::Pending ==> self.slots()[j]
                == Slot::Pending
    }

    /// The counters agree with the slots.
    pub closed spec fn counters(&self) -> bool {
        &&& self.next as nat == self.started()
        &&& self.in_flight as nat == self.in_flight()
        &&& self.done as nat == self.completed()
        &&& forall|i: int| 0 <= i < self.total() ==> (#[trigger] self.slots()[i] == Slot::Pending
            <==> i >= self.next)
    }

    /// The plan is consistent: the bound holds and items start in order.
    pub open spec fn wf(&self) -> bool {
        &&& self.limit() > 0
        &&& self.in_flight() <= self.limit()
        &&& self.started_in_order()
        &&& self.counters()
    }

    /// A plan for `total` items with at most `limit` requests in flight.
    pub fn new(total: usize, limit: usize) -> (r: FetchPlan)
        requires
            limit > 0,
        ensures
            r.wf(),
            r.total() == total,
            r.limit() == limit,
            forall|i: int| 0 <= i < total ==> r.slots()[i] == Slot::Pending,
            r.started() == 0,
            r.in_flight() == 0,
            r.completed() == 0,
    {
        let mut slots: Vec<Slot> = Vec::new();
        let mut i: usize = 0;
        while i < total
            invariant
                0 <= i <= total,
                slots@.len() == i,
                forall|j: int| 0 <= j < i ==> slots@[j] == Slot::Pending,
            decreases total - i,
        {
            slots.push(Slot::Pending);
            i += 1;
        }
        proof {
            lemma_count_all(slots@, Slot::Pending);
            lemma_count_none(slots@, Slot::InFlight);
            lemma_count_none(slots@, Slot::Done);
        }
        FetchPlan { slots, limit, next: 0, in_flight: 0, done: 0 }
    }

    /// The number of requests in flight.
    pub fn in_flight_count(&self) -> (r: usize)
        requires
            self.wf(),
        ensures
            r == self.in_flight(),
    {
        self.in_flight
    }

    /// Whether every item's request has ended.
    pub fn is_finished(&self) -> (r: bool)
        requires
            self.wf(),
        ensures
            r == self.finished(),
    {
        self.done == self.slots.len()
    }

    /// Starts the next item where the bound allows it, and says which one.
    pub fn next_start(&mut self) -> (r: Option<usize>)
        requires
            old(self).wf(),
        ensures
            final(self).wf(),
            final(self).limit() == old(self).limit(),
            match r {
                Some(i) => {
                    &&& old(self).can_start()
                    &&& i == old(self).started()
                    &&& final(self).slots() == old(self).slots().update(i as int, Slot::InFlight)
                    &&& final(self).started() == old(self).started() + 1
                    &&& final(self).in_flight() == old(self).in_flight() + 1
                    &&& final(self).completed() == old(self).completed()
                },
                None => !old(self).can_start() && final(self).slots() == old(self).slots(),
            },
    {
        proof {
            lemma_count_sum(self.slots@);
        }
        if self.next < self.slots.len() && self.in_flight < self.limit {
            let i = self.next;
            proof {
                lemma_count_update(self.slots@, i as int, Slot::InFlight, Slot::Pending);
                lemma_count_update(self.slots@, i as int, Slot::InFlight, Slot::InFlight);
                lemma_count_update(self.slots@, i as int, Slot::InFlight, Slot::Done);
            }
            self.slots.set(i, Slot::InFlight);
            self.next = i + 1;
            self.in_flight = self.in_flight + 1;
            Some(i)
        } else {
            None
        }
    }

    /// Takes note that the request of item `i` has ended. Returns false, and changes
    /// nothing, where `i` has no request in flight.
    pub fn complete(&mut self, i: usize) -> (r: bool)
        requires
            old(self).wf(),
        ensures
            final(self).wf(),
            final(self).limit() == old(self).limit(),
            r == (i < old(self).total() && old(self).slots()[i as int] == Slot::InFlight),
            r ==> final(self).slots() == old(self).slots().update(i as int, Slot::Done),
            r ==> final(self).started() == old(self).started() && final(self).in_flight() == old(
                self,
            ).in_flight() - 1 && final(self).completed() == old(self).completed() + 1,
            !r ==> final(self).slots() == old(self).slots(),
    {
        if i < self.slots.len() && self.slots[i] == Slot::InFlight {
            proof {
                lemma_count_update(self.slots@, i as int, Slot::Done, Slot::Pending);
                lemma_count_update(self.slots@, i as int, Slot::Done, Slot::InFlight);
                lemma_count_update(self.slots@, i as int, Slot::Done, Slot::Done);
                lemma_count_sum(self.slots@);
            }
            self.slots.set(i, Slot::Done);
            self.in_flight = self.in_flight - 1;
            self.done = self.done + 1;
            true
        } else {
            false
        }
    }
}

/// Where a plan has not finished, it can go on: either another item may start or a request
/// is in flight whose end is awaited. So a run that starts whatever the plan allows and
/// reports every end finishes, with exactly one outcome per item, whatever the limit.
pub proof fn lemma_plan_makes_progress(p: FetchPlan)
    requires
        p.wf(),
        !p.finished(),
    ensures
        p.can_start() || p.in_flight() > 0,
{
    lemma_count_sum(p.slots());
}

/// No plan ever has more requests in flight than its limit.
pub proof fn lemma_in_flight_within_limit(p: FetchPlan)
    requires
        p.wf(),
    ensures
        p.in_flight() <= p.limit(),
{
}

/// A plan for no items is finished from the start and never starts a request.
pub proof fn lemma_empty_plan_starts_nothing(p: FetchPlan)
    requires
        p.wf(),
        p.total() == 0,
    ensures
        p.finished(),
        !p.can_start(),
{
}

/// An item whose end has been reported cannot be reported again.
pub proof fn lemma_one_outcome_per_item(p: FetchPlan, i: int)
    requires
        p.wf(),
        0 <= i < p.total(),
        p.slots()[i] == Slot::Done,
    ensures
        p.slots().update(i, Slot::Done) == p.slots(),
        p.slots()[i] != Slot::InFlight,
{
    assert(p.slots().update(i, Slot::Done) =~= p.slots());
}

/// The tally of a run: how many items there were, how many descriptors came back, and
/// each failed item with its error, in the order the failures arrived.
#[derive(Debug, PartialEq)]
pub struct Report {
    pub total: usize,
    pub successes: usize,
    pub failures: Vec<(DirectoryItem, Error)>,
}

/// A plan over a list of items, holding each item until its outcome is reported, together
/// with the tally of the outcomes so far.
pub struct FetchRun {
    plan: FetchPlan,
    held: Vec<Option<DirectoryItem>>,
    all: Ghost<Seq<DirectoryItem>>,
    report: Report,
}

impl FetchRun {
    /// The plan of the run.
    pub closed spec fn plan(&self) -> FetchPlan {
        self.plan
    }

    /// The items of the run, in their order.
    pub closed spec fn items(&self) -> Seq<DirectoryItem> {
        self.all@
    }

    /// The tally so far.
    pub closed spec fn report(&self) -> Report {
        self.report
    }

    /// The run holds every item whose outcome is still to come.
    pub closed spec fn holds_pending_items(&self) -> bool {
        &&& self.held@.len() == self.all@.len()
        &&& forall|i: int|
            0 <= i < self.held@.len() && self.plan.slots()[i] != Slot::Done ==> #[trigger] self.held@[i]
                == Some(self.all@[i])
    }

    /// Every outcome reported so far is counted once, as a success or as a failure.
    pub open spec fn wf(&self) -> bool {
        &&& self.plan().wf()
        &&& self.items().len() == self.plan().total()
        &&& self.report().total == self.plan().total()
        &&& self.report().successes + self.report().failures@.len() == self.plan().completed()
        &&& self.holds_pending_items()
    }

    /// A run over `items` with at most `limit` requests in flight.
    pub fn new(items: Vec<DirectoryItem>, limit: usize) -> (r: FetchRun)
        requires
            limit > 0,
        ensures
            r.wf(),
            r.items() == items@,
            r.plan().total() == items@.len(),
            r.plan().limit() == limit,
            r.plan().started() == 0,
            r.plan().in_flight() == 0,
            r.plan().completed() == 0,
            r.report().total == items@.len(),
            r.report().successes == 0,
            r.report().failures@.len() == 0,
    {
        let ghost all = items@;
        let total = items.len();
        let mut items = items;
        let mut held: Vec<Option<DirectoryItem>> = Vec::new();
        let mut i: usize = 0;
        while i < total
            invariant
                0 <= i <= total,
                total == all.len(),
                items@ == all,
                held@.len() == i,
            decreases total - i,
        {
            held.push(None);
            i += 1;
        }
        while items.len() > 0
            invariant
                held@.len() == all.len(),
                items@.len() <= all.len(),
                items@ == all.take(items@.len() as int),
                forall|j: int| items@.len() <= j < all.len() ==> #[trigger] held@[j] == Some(all[j]),
            decreases items@.len(),
        {
            let k = items.len() - 1;
            let item = items.pop().unwrap();
            assert(all.take(k as int) =~= all.take(k + 1).drop_last());
            held.set(k, Some(item));
        }
        let plan = FetchPlan::new(total, limit);
        FetchRun {
            plan,
            held,
            all: Ghost(all),
            report: Report { total, successes: 0, failures: Vec::new() },
        }
    }

    /// Starts the next item where the bound allows it, and says which one and the request
    /// for its descriptor.
    pub fn next_start(&mut self) -> (r: Option<(usize, Request)>)
        requires
            old(self).wf(),
        ensures
            final(self).wf(),
            final(self).items() == old(self).items(),
            final(self).report() == old(self).report(),
            final(self).plan().limit() == old(self).plan().limit(),
            match r {
                Some((i, request)) => {
                    &&& old(self).plan().can_start()
                    &&& i == old(self).plan().started()
                    &&& request.url@ == old(self).items()[i as int].discovery_rest_url@
                    &&& request.query@.len() == 0
                    &&& final(self).plan().slots() == old(self).plan().slots().update(
                        i as int,
                        Slot::InFlight,
                    )
                    &&& final(self).plan().started() == old(self).plan().started() + 1
                    &&& final(self).plan().in_flight() == old(self).plan().in_flight() + 1
                    &&& final(self).plan().completed() == old(self).plan().completed()
                },
                None => !old(self).plan().can_start() && final(self).plan().slots() == old(
                    self,
                ).plan().slots(),
            },
    {
        let started = self.plan.next_start();
        match started {
            Some(i) => {
                proof {
                    lemma_count_update(old(self).plan().slots(), i as int, Slot::InFlight, Slot::Done);
                    assert(old(self).plan().slots()[i as int] == Slot::Pending);
                    assert(self.held@[i as int] == Some(self.all@[i as int]));
                }
                let item = self.held[i].as_ref().unwrap();
                let request = item_request(item);
                Some((i, request))
            },
            None => None,
        }
    }

    /// Reports the outcome of the request of item `i`. A failure is recorded together with
    /// item `i` itself. Returns false, and changes nothing, where `i` has no request in
    /// flight: so no item is counted twice.
    pub fn finish(&mut self, i: usize, outcome: Result<RestDescription, Error>) -> (r: bool)
        requires
            old(self).wf(),
        ensures
            final(self).wf(),
            final(self).items() == old(self).items(),
            final(self).plan().limit() == old(self).plan().limit(),
            final(self).report().total == old(self).report().total,
            r == (i < old(self).plan().total() && old(self).plan().slots()[i as int]
                == Slot::InFlight),
            r ==> final(self).plan().slots() == old(self).plan().slots().update(i as int, Slot::Done),
            r ==> final(self).plan().in_flight() == old(self).plan().in_flight() - 1
                && final(self).plan().completed() == old(self).plan().completed() + 1,
            r && outcome is Ok ==> {
                &&& final(self).report().successes == old(self).report().successes + 1
                &&& final(self).report().failures@ == old(self).report().failures@
            },
            r && outcome is Err ==> {
                &&& final(self).report().successes == old(self).report().successes
                &&& final(self).report().failures@ == old(self).report().failures@.push(
                    (old(self).items()[i as int], outcome->Err_0),
                )
            },
            !r ==> final(self).plan().slots() == old(self).plan().slots() && final(self).report()
                == old(self).report(),
    {
        let accepted = self.plan.complete(i);
        if !accepted {
            return false;
        }
        proof {
            lemma_count_update(old(self).plan().slots(), i as int, Slot::Done, Slot::Done);
            lemma_count_bound(self.plan.slots(), Slot::Done);
            assert(self.held@[i as int] == Some(self.all@[i as int]));
        }
        let ghost before = self.held@;
        self.held.push(None);
        let taken = self.held.swap_remove(i);
        assert(self.held@ =~= before.update(i as int, None));
        let item = taken.unwrap();
        match outcome {
            Ok(_) => {
                self.report.successes = self.report.successes + 1;
            },
            Err(e) => {
                self.report.failures.push((item, e));
            },
        }
        true
    }

    /// The number of requests in flight.
    pub fn in_flight_count(&self) -> (r: usize)
        requires
            self.wf(),
        ensures
            r == self.plan().in_flight(),
    {
        self.plan.in_flight_count()
    }

    /// Whether every item's outcome has been reported.
    pub fn is_finished(&self) -> (r: bool)
        requires
            self.wf(),
        ensures
            r == self.plan().finished(),
    {
        self.plan.is_finished()
    }

    /// The tally of the run.
    pub fn into_report(self) -> (r: Report)
        requires
            self.wf(),
        ensures
            r == self.report(),
    {
        self.report
    }
}

/// Once a run has finished, its tally accounts for every item: successes and failures add
/// up to the number of items.
pub proof fn lemma_finished_run_reconciles(run: FetchRun)
    requires
        run.wf(),
        run.plan().finished(),
    ensures
        run.report().successes + run.report().failures@.len() == run.report().total,
{
}

} // verus!
