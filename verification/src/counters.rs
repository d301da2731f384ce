use vstd::prelude::*;

use crate::dispatch::{bodiless_method, decision_for, Decision};

verus! {

/// Increment by one, wrapping around at `u64::MAX` as an atomic `fetch_add` does.
pub open spec fn bump(n: u64) -> u64 {
    if n == u64::MAX {
        0
    } else {
        (n + 1) as u64
    }
}

/// The three totals a mirror keeps.
pub struct CountersView {
    pub mirrored: u64,
    pub failed: u64,
    pub dropped: u64,
}

/// The kind of event a counter records.
#[derive(Clone, Copy, Debug, PartialEq, Eq, Structural)]
pub enum Tick {
    Mirrored,
    Failed,
    Dropped,
}

impl CountersView {
    pub open spec fn zero() -> CountersView {
        CountersView { mirrored: 0, failed: 0, dropped: 0 }
    }

    pub open spec fn tick(self, t: Tick) -> CountersView {
        match t {
            Tick::Mirrored => CountersView { mirrored: bump(self.mirrored), ..self },
            Tick::Failed => CountersView { failed: bump(self.failed), ..self },
            Tick::Dropped => CountersView { dropped: bump(self.dropped), ..self },
        }
    }
}

/// How one attempt to deliver a mirrored request to one target ended.
#[derive(Clone, Copy, Debug, PartialEq, Eq, Structural)]
pub enum SendOutcome {
    /// The target answered.
    Delivered,
    /// The request could not be built, the connection failed, or the target
    /// answered with a transport error.
    Failed,
    /// The target did not answer within the request timeout.
    TimedOut,
}

/// Which counter records an outcome: only a delivered request counts as mirrored.
pub open spec fn outcome_tick(o: SendOutcome) -> Tick {
    match o {
        SendOutcome::Delivered => Tick::Mirrored,
        _ => Tick::Failed,
    }
}

/// The counters after recording `events` in order, starting from zero.
pub open spec fn tally(events: Seq<Tick>) -> CountersView
    decreases events.len(),
{
    if events.len() == 0 {
        CountersView::zero()
    } else {
        tally(events.drop_last()).tick(events.last())
    }
}

/// How many of `events` are of the given kind.
pub open spec fn occurrences(events: Seq<Tick>, kind: Tick) -> nat
    decreases events.len(),
{
    if events.len() == 0 {
        0
    } else {
        occurrences(events.drop_last(), kind) + if events.last() == kind { 1nat } else { 0nat }
    }
}

/// Each counter reads back exactly the number of events of its kind recorded
/// since it was created, as long as fewer than 2^64 events were recorded.
pub proof fn lemma_tally_counts_each_kind(events: Seq<Tick>)
    requires
        events.len() <= u64::MAX,
    ensures
        tally(events).mirrored == occurrences(events, Tick::Mirrored),
        tally(events).failed == occurrences(events, Tick::Failed),
        tally(events).dropped == occurrences(events, Tick::Dropped),
    decreases events.len(),
{
    if events.len() > 0 {
        let prefix = events.drop_last();
        lemma_tally_counts_each_kind(prefix);
        lemma_occurrences_bounded(prefix, Tick::Mirrored);
        lemma_occurrences_bounded(prefix, Tick::Failed);
        lemma_occurrences_bounded(prefix, Tick::Dropped);
    }
}

proof fn lemma_occurrences_bounded(events: Seq<Tick>, kind: Tick)
    ensures
        occurrences(events, kind) <= events.len(),
    decreases events.len(),
{
    if events.len() > 0 {
        lemma_occurrences_bounded(events.drop_last(), kind);
    }
}

/// The counters after recording each of `outcomes` in order.
pub open spec fn after_sends(c: CountersView, outcomes: Seq<SendOutcome>) -> CountersView
    decreases outcomes.len(),
{
    if outcomes.len() == 0 {
        c
    } else {
        after_sends(c, outcomes.drop_last()).tick(outcome_tick(outcomes.last()))
    }
}

/// The sum of the three counters.
pub open spec fn total(c: CountersView) -> int {
    c.mirrored + c.failed + c.dropped
}

/// How many sends a decision starts.
pub open spec fn fan_out_of(d: Decision) -> nat {
    match d {
        Decision::Mirror { fan_out } => fan_out as nat,
        Decision::Drop(_) => 0,
    }
}

/// The counters after a request's decision is recorded.
pub open spec fn after_decision(c: CountersView, d: Decision) -> CountersView {
    match d {
        Decision::Drop(_) => c.tick(Tick::Dropped),
        Decision::Mirror { .. } => c,
    }
}

/// Every request is accounted for: once recorded with the outcome of each of
/// its sends, a dropped request has added exactly one to the counters and a
/// mirrored request exactly one per target (while no counter wraps).
pub proof fn lemma_every_request_accounted(
    c: CountersView,
    d: Decision,
    outcomes: Seq<SendOutcome>,
)
    requires
        outcomes.len() == fan_out_of(d),
        c.mirrored + outcomes.len() + 1 <= u64::MAX,
        c.failed + outcomes.len() + 1 <= u64::MAX,
        c.dropped + 1 <= u64::MAX,
    ensures
        total(after_sends(after_decision(c, d), outcomes)) == total(c) + match d {
            Decision::Drop(_) => 1int,
            Decision::Mirror { fan_out } => fan_out as int,
        },
{
    lemma_sends_add_one_each(after_decision(c, d), outcomes);
}

proof fn lemma_sends_add_one_each(c: CountersView, outcomes: Seq<SendOutcome>)
    requires
        c.mirrored + outcomes.len() <= u64::MAX,
        c.failed + outcomes.len() <= u64::MAX,
    ensures
        total(after_sends(c, outcomes)) == total(c) + outcomes.len(),
        after_sends(c, outcomes).mirrored <= c.mirrored + outcomes.len(),
        after_sends(c, outcomes).failed <= c.failed + outcomes.len(),
        after_sends(c, outcomes).mirrored >= c.mirrored,
        after_sends(c, outcomes).failed >= c.failed,
        after_sends(c, outcomes).dropped == c.dropped,
    decreases outcomes.len(),
{
    if outcomes.len() > 0 {
        lemma_sends_add_one_each(c, outcomes.drop_last());
    }
}

/// How many of `outcomes` are deliveries.
pub open spec fn delivered_count(outcomes: Seq<SendOutcome>) -> nat
    decreases outcomes.len(),
{
    if outcomes.len() == 0 {
        0
    } else {
        delivered_count(outcomes.drop_last()) + if outcomes.last() == SendOutcome::Delivered {
            1nat
        } else {
            0nat
        }
    }
}

/// How many of `outcomes` are failures or timeouts.
pub open spec fn undelivered_count(outcomes: Seq<SendOutcome>) -> nat {
    (outcomes.len() - delivered_count(outcomes)) as nat
}

proof fn lemma_delivered_count_bounded(outcomes: Seq<SendOutcome>)
    ensures
        delivered_count(outcomes) <= outcomes.len(),
    decreases outcomes.len(),
{
    if outcomes.len() > 0 {
        lemma_delivered_count_bounded(outcomes.drop_last());
    }
}

/// Recording sends adds their deliveries to `mirrored` and the rest to
/// `failed`, while neither wraps.
proof fn lemma_after_sends_adds_counts(c: CountersView, outcomes: Seq<SendOutcome>)
    requires
        c.mirrored + delivered_count(outcomes) <= u64::MAX,
        c.failed + undelivered_count(outcomes) <= u64::MAX,
    ensures
        after_sends(c, outcomes) == (CountersView {
            mirrored: (c.mirrored + delivered_count(outcomes)) as u64,
            failed: (c.failed + undelivered_count(outcomes)) as u64,
            dropped: c.dropped,
        }),
    decreases outcomes.len(),
{
    lemma_delivered_count_bounded(outcomes);
    if outcomes.len() > 0 {
        let prefix = outcomes.drop_last();
        lemma_delivered_count_bounded(prefix);
        lemma_after_sends_adds_counts(c, prefix);
    }
}

/// One request as the worker met it: its method token, its sampling draw,
/// how many targets it names, how many slots were free when it was taken,
/// and how each send it started ended.
pub struct RequestRun {
    pub method: Seq<char>,
    pub sampled: bool,
    pub target_count: nat,
    pub available_permits: nat,
    pub outcomes: Seq<SendOutcome>,
}

/// The decision the worker takes for a request.
pub open spec fn run_decision(r: RequestRun) -> Decision {
    decision_for(r.method, r.sampled, r.target_count, r.available_permits)
}

/// Whether a request gets mirrored.
pub open spec fn admissible(r: RequestRun) -> bool {
    bodiless_method(r.method) && r.sampled && 0 < r.target_count <= r.available_permits
}

/// The worker starts one send per slot that the decision takes, and each
/// ends with one outcome.
pub open spec fn sends_follow_decision(r: RequestRun) -> bool {
    &&& r.target_count <= usize::MAX
    &&& r.outcomes.len() == fan_out_of(run_decision(r))
}

/// The counters once every request of `runs` and all of their sends have been
/// recorded, starting from zero.
pub open spec fn run_all(runs: Seq<RequestRun>) -> CountersView
    decreases runs.len(),
{
    if runs.len() == 0 {
        CountersView::zero()
    } else {
        let r = runs.last();
        after_sends(after_decision(run_all(runs.drop_last()), run_decision(r)), r.outcomes)
    }
}

/// How many requests of `runs` are dropped.
pub open spec fn dropped_requests(runs: Seq<RequestRun>) -> nat
    decreases runs.len(),
{
    if runs.len() == 0 {
        0
    } else {
        dropped_requests(runs.drop_last()) + if admissible(runs.last()) {
            0nat
        } else {
            1nat
        }
    }
}

/// How many sends of `runs` delivered their request.
pub open spec fn delivered_sends(runs: Seq<RequestRun>) -> nat
    decreases runs.len(),
{
    if runs.len() == 0 {
        0
    } else {
        delivered_sends(runs.drop_last()) + delivered_count(runs.last().outcomes)
    }
}

/// How many sends of `runs` failed or timed out.
pub open spec fn undelivered_sends(runs: Seq<RequestRun>) -> nat
    decreases runs.len(),
{
    if runs.len() == 0 {
        0
    } else {
        undelivered_sends(runs.drop_last()) + undelivered_count(runs.last().outcomes)
    }
}

/// The worker's bookkeeping over a whole stream of requests: a request is sent
/// once to each of its targets when it is admissible and to none otherwise;
/// once everything is recorded, `dropped` is the number of requests that were
/// not admissible, `mirrored` the number of sends that delivered, and
/// `failed` the number of sends that failed or timed out (while no counter
/// reaches 2^64). This is the schedule that records each request's sends
/// before the next decision; `lemma_accounting_any_interleaving` extends it to
/// every other order.
pub proof fn lemma_worker_accounting(runs: Seq<RequestRun>)
    requires
        forall|i: int| 0 <= i < runs.len() ==> #[trigger] sends_follow_decision(runs[i]),
        dropped_requests(runs) <= u64::MAX,
        delivered_sends(runs) <= u64::MAX,
        undelivered_sends(runs) <= u64::MAX,
    ensures
        forall|i: int|
            0 <= i < runs.len() ==> (#[trigger] runs[i]).outcomes.len() == if admissible(
                runs[i],
            ) {
                runs[i].target_count
            } else {
                0
            },
        run_all(runs) == (CountersView {
            mirrored: delivered_sends(runs) as u64,
            failed: undelivered_sends(runs) as u64,
            dropped: dropped_requests(runs) as u64,
        }),
    decreases runs.len(),
{
    assert forall|i: int| 0 <= i < runs.len() implies (#[trigger] runs[i]).outcomes.len()
        == if admissible(runs[i]) {
        runs[i].target_count
    } else {
        0
    } by {
        assert(sends_follow_decision(runs[i]));
    }
    if runs.len() > 0 {
        let prefix = runs.drop_last();
        let r = runs.last();
        assert forall|i: int| 0 <= i < prefix.len() implies #[trigger] sends_follow_decision(
            prefix[i],
        ) by {
            assert(prefix[i] == runs[i]);
        }
        lemma_worker_accounting(prefix);
        assert(sends_follow_decision(runs[runs.len() - 1]));
        let c = after_decision(run_all(prefix), run_decision(r));
        lemma_after_sends_adds_counts(c, r.outcomes);
    }
}

/// The totals do not depend on the order in which decisions and sends are
/// recorded: any sequence of ticks with one `Dropped` tick per request that
/// was not admissible, one `Mirrored` tick per delivered send and one
/// `Failed` tick per failed or timed-out send, in whatever interleaving,
/// leaves the counters as the request-by-request schedule does.
pub proof fn lemma_accounting_any_interleaving(runs: Seq<RequestRun>, events: Seq<Tick>)
    requires
        forall|i: int| 0 <= i < runs.len() ==> #[trigger] sends_follow_decision(runs[i]),
        events.len() <= u64::MAX,
        occurrences(events, Tick::Dropped) == dropped_requests(runs),
        occurrences(events, Tick::Mirrored) == delivered_sends(runs),
        occurrences(events, Tick::Failed) == undelivered_sends(runs),
    ensures
        tally(events) == run_all(runs),
{
    lemma_tally_counts_each_kind(events);
    lemma_occurrences_bounded(events, Tick::Dropped);
    lemma_occurrences_bounded(events, Tick::Mirrored);
    lemma_occurrences_bounded(events, Tick::Failed);
    lemma_worker_accounting(runs);
}

/// Counters of mirrored, failed and dropped requests.
///
/// A `Counters` is a plain value: a clone or copy is an independent snapshot,
/// and each method updates only the value it is called on. A mirror whose
/// tasks must all add to one set of totals keeps a single `Counters` behind
/// a lock of its own and calls these methods through it.
#[derive(Clone, Copy, Debug)]
pub struct Counters {
    mirrored: u64,
    failed: u64,
    dropped: u64,
}

impl View for Counters {
    type V = CountersView;

    closed spec fn view(&self) -> CountersView {
        CountersView { mirrored: self.mirrored, failed: self.failed, dropped: self.dropped }
    }
}

impl Default for Counters {
    fn default() -> (c: Counters)
        ensures
            c@ == CountersView::zero(),
    {
        Counters { mirrored: 0, failed: 0, dropped: 0 }
    }
}

fn bumped(n: u64) -> (r: u64)
    ensures
        r == bump(n),
{
    if n == u64::MAX {
        0
    } else {
        n + 1
    }
}

impl Counters {
    /// Counts one request that reached its target.
    pub fn increment_mirrored(&mut self)
        ensures
            final(self)@ == old(self)@.tick(Tick::Mirrored),
    {
        self.mirrored = bumped(self.mirrored);
    }

    /// Counts one request that could not be delivered to its target.
    pub fn increment_failed(&mut self)
        ensures
            final(self)@ == old(self)@.tick(Tick::Failed),
    {
        self.failed = bumped(self.failed);
    }

    /// Counts one request that was not mirrored at all.
    pub fn increment_dropped(&mut self)
        ensures
            final(self)@ == old(self)@.tick(Tick::Dropped),
    {
        self.dropped = bumped(self.dropped);
    }

    /// Counts how one delivery attempt ended.
    pub fn record_send(&mut self, outcome: SendOutcome)
        ensures
            final(self)@ == old(self)@.tick(outcome_tick(outcome)),
    {
        match outcome {
            SendOutcome::Delivered => self.increment_mirrored(),
            SendOutcome::Failed => self.increment_failed(),
            SendOutcome::TimedOut => self.increment_failed(),
        }
    }

    /// Counts a request's decision: a dropped request is counted as dropped,
    /// a mirrored one is left to the outcomes of its sends.
    pub fn record_decision(&mut self, decision: &Decision)
        ensures
            final(self)@ == after_decision(old(self)@, *decision),
    {
        match decision {
            Decision::Drop(_) => self.increment_dropped(),
            Decision::Mirror { .. } => {},
        }
    }

    pub fn mirrored(&self) -> (n: u64)
        ensures
            n == self@.mirrored,
    {
        self.mirrored
    }

    pub fn failed(&self) -> (n: u64)
        ensures
            n == self@.failed,
    {
        self.failed
    }

    pub fn dropped(&self) -> (n: u64)
        ensures
            n == self@.dropped,
    {
        self.dropped
    }
}

} // verus!
