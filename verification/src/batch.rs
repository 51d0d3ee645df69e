//! Per-row dispatch state machine and batch counters.
//!
//! One batch spawns one unit of work per row. Each unit walks the states
//! pending, awaiting a concurrency slot, awaiting a rate token, in flight,
//! parsing, and done (succeeded or failed); a unit that observes
//! cancellation before its slot is granted abandons its row without
//! counting it. The state here is the decision core: the caller owns the
//! actual semaphore, limiter, network and clock, reports each step, and
//! emits the events that the accessors describe.

use vstd::prelude::*;

verus! {

/// Where one row's unit of work stands.
#[derive(Clone, Copy, PartialEq, Eq, Structural)]
pub enum RowPhase {
    /// Spawned, not yet asking for a slot.
    Pending,
    /// Waiting for a concurrency slot.
    AwaitingSlot,
    /// Slot held; waiting for a rate token.
    AwaitingRateToken,
    /// Request sent; response not yet in.
    InFlight,
    /// Response in; extracting structured JSON.
    Parsing,
    /// Done: the row produced parsed JSON.
    Succeeded,
    /// Done: the row failed (network, API or parse failure).
    Failed,
    /// Cancellation was observed before the row started; the row is not
    /// counted as completed or failed.
    Abandoned,
}

/// How many of `phases` satisfy `p`.
pub open spec fn spec_count(phases: Seq<RowPhase>, p: spec_fn(RowPhase) -> bool) -> int
    decreases phases.len(),
{
    if phases.len() == 0 {
        0
    } else {
        (if p(phases[0]) {
            1int
        } else {
            0int
        }) + spec_count(phases.skip(1), p)
    }
}

/// A row in this phase holds a concurrency slot.
pub open spec fn spec_holds_slot(ph: RowPhase) -> bool {
    ph is AwaitingRateToken || ph is InFlight || ph is Parsing
}

/// A row in this phase has a request in flight.
pub open spec fn spec_in_flight(ph: RowPhase) -> bool {
    ph is InFlight || ph is Parsing
}

/// A row in this phase is finished and will move no further.
pub open spec fn spec_terminal(ph: RowPhase) -> bool {
    ph is Succeeded || ph is Failed || ph is Abandoned
}

/// The shared state of one batch: each row's phase, the four counters,
/// and the set-at-most-once cancellation flag.
pub struct BatchState {
    concurrency: u32,
    phases: Vec<RowPhase>,
    active: u32,
    held: u32,
    succeeded: u32,
    failed: u32,
    completed: u32,
    cancelled: bool,
}

impl BatchState {
    /// The concurrency bound C.
    pub closed spec fn concurrency(self) -> int {
        self.concurrency as int
    }

    /// Every row's phase, by row index.
    pub closed spec fn phases(self) -> Seq<RowPhase> {
        self.phases@
    }

    /// The number of rows submitted to the batch.
    pub open spec fn total(self) -> int {
        self.phases().len() as int
    }

    /// The count behind every `ActiveRequestCount` event.
    pub closed spec fn active(self) -> int {
        self.active as int
    }

    /// Concurrency slots currently held.
    pub closed spec fn held(self) -> int {
        self.held as int
    }

    /// Rows that ended in success.
    pub closed spec fn succeeded(self) -> int {
        self.succeeded as int
    }

    /// Rows that ended in failure.
    pub closed spec fn failed(self) -> int {
        self.failed as int
    }

    /// Rows that reached a counted end, successful or not.
    pub closed spec fn completed(self) -> int {
        self.completed as int
    }

    /// Whether cancellation has been requested.
    pub closed spec fn cancelled(self) -> bool {
        self.cancelled
    }

    /// The batch invariant: the counters agree with the row phases, held
    /// slots never exceed the concurrency bound, and rows are abandoned
    /// only under cancellation.
    pub closed spec fn wf(self) -> bool {
        &&& self.concurrency >= 1
        &&& self.phases@.len() <= u32::MAX as int
        &&& self.held as int == spec_count(self.phases@, |ph: RowPhase| spec_holds_slot(ph))
        &&& self.active as int == spec_count(self.phases@, |ph: RowPhase| spec_in_flight(ph))
        &&& self.succeeded as int == spec_count(self.phases@, |ph: RowPhase| ph is Succeeded)
        &&& self.failed as int == spec_count(self.phases@, |ph: RowPhase| ph is Failed)
        &&& self.completed == self.succeeded + self.failed
        &&& self.held <= self.concurrency
        &&& (!self.cancelled ==> spec_count(self.phases@, |ph: RowPhase| ph is Abandoned) == 0)
    }

    /// A fresh batch of `total` pending rows under concurrency bound
    /// `concurrency`.
    pub fn new(total: usize, concurrency: u32) -> (s: Self)
        requires
            concurrency >= 1,
            total <= u32::MAX,
        ensures
            s.wf(),
            s.concurrency() == concurrency as int,
            s.total() == total as int,
            forall|k: int| 0 <= k < total as int ==> #[trigger] s.phases()[k] is Pending,
            s.active() == 0,
            s.held() == 0,
            s.succeeded() == 0,
            s.failed() == 0,
            s.completed() == 0,
            !s.cancelled(),
    {
        let mut phases: Vec<RowPhase> = Vec::new();
        let mut k: usize = 0;
        while k < total
            invariant
                k <= total,
                phases@.len() == k as int,
                forall|j: int| 0 <= j < k as int ==> #[trigger] phases@[j] is Pending,
            decreases total - k,
        {
            phases.push(RowPhase::Pending);
            k = k + 1;
        }
        proof {
            lemma_count_all_pending(phases@);
        }
        BatchState {
            concurrency,
            phases,
            active: 0,
            held: 0,
            succeeded: 0,
            failed: 0,
            completed: 0,
            cancelled: false,
        }
    }

    /// Requests cancellation. Setting the flag is idempotent: nothing
    /// else changes, whether or not it was set before.
    pub fn cancel(&mut self)
        requires
            old(self).wf(),
        ensures
            final(self).wf(),
            final(self).cancelled(),
            final(self).phases() == old(self).phases(),
            final(self).concurrency() == old(self).concurrency(),
            final(self).active() == old(self).active(),
            final(self).held() == old(self).held(),
            final(self).succeeded() == old(self).succeeded(),
            final(self).failed() == old(self).failed(),
            final(self).completed() == old(self).completed(),
    {
        self.cancelled = true;
    }

    /// A spawned unit immediately asks for a concurrency slot.
    pub fn start_row(&mut self, i: usize)
        requires
            old(self).wf(),
            i < old(self).total(),
            old(self).phases()[i as int] is Pending,
        ensures
            final(self).wf(),
            final(self).phases() == old(self).phases().update(i as int, RowPhase::AwaitingSlot),
            final(self).concurrency() == old(self).concurrency(),
            final(self).cancelled() == old(self).cancelled(),
            final(self).active() == old(self).active(),
            final(self).held() == old(self).held(),
            final(self).succeeded() == old(self).succeeded(),
            final(self).failed() == old(self).failed(),
            final(self).completed() == old(self).completed(),
    {
        proof {
            lemma_count_update_all(old(self).phases@, i as int, RowPhase::AwaitingSlot);
        }
        self.phases[i] = RowPhase::AwaitingSlot;
    }

    /// The concurrency gate granted row `i` a slot. If cancellation has
    /// been requested by then, the row is abandoned instead: it consumes
    /// no slot and no token, and it is never counted. Otherwise the row
    /// holds the slot and waits for a rate token. Returns whether the row
    /// goes on.
    pub fn grant_slot(&mut self, i: usize) -> (granted: bool)
        requires
            old(self).wf(),
            i < old(self).total(),
            old(self).phases()[i as int] is AwaitingSlot,
            old(self).held() < old(self).concurrency(),
        ensures
            final(self).wf(),
            granted == !old(self).cancelled(),
            final(self).concurrency() == old(self).concurrency(),
            final(self).cancelled() == old(self).cancelled(),
            final(self).active() == old(self).active(),
            final(self).succeeded() == old(self).succeeded(),
            final(self).failed() == old(self).failed(),
            final(self).completed() == old(self).completed(),
            granted ==> final(self).phases() == old(self).phases().update(
                i as int,
                RowPhase::AwaitingRateToken,
            ) && final(self).held() == old(self).held() + 1,
            !granted ==> final(self).phases() == old(self).phases().update(
                i as int,
                RowPhase::Abandoned,
            ) && final(self).held() == old(self).held(),
    {
        if self.cancelled {
            proof {
                lemma_count_update_all(old(self).phases@, i as int, RowPhase::Abandoned);
            }
            self.phases[i] = RowPhase::Abandoned;
            false
        } else {
            proof {
                lemma_count_update_all(old(self).phases@, i as int, RowPhase::AwaitingRateToken);
            }
            self.phases[i] = RowPhase::AwaitingRateToken;
            self.held = self.held + 1;
            true
        }
    }

    /// The rate limiter admitted row `i`: its request goes out now, and
    /// the in-flight count behind `ActiveRequestCount` rises by one.
    pub fn grant_token(&mut self, i: usize)
        requires
            old(self).wf(),
            i < old(self).total(),
            old(self).phases()[i as int] is AwaitingRateToken,
        ensures
            final(self).wf(),
            final(self).phases() == old(self).phases().update(i as int, RowPhase::InFlight),
            final(self).concurrency() == old(self).concurrency(),
            final(self).cancelled() == old(self).cancelled(),
            final(self).active() == old(self).active() + 1,
            final(self).active() <= final(self).concurrency(),
            final(self).held() == old(self).held(),
            final(self).succeeded() == old(self).succeeded(),
            final(self).failed() == old(self).failed(),
            final(self).completed() == old(self).completed(),
    {
        proof {
            lemma_count_update_all(old(self).phases@, i as int, RowPhase::InFlight);
            lemma_count_le(
                old(self).phases@.update(i as int, RowPhase::InFlight),
                |ph: RowPhase| spec_in_flight(ph),
                |ph: RowPhase| spec_holds_slot(ph),
            );
        }
        self.phases[i] = RowPhase::InFlight;
        self.active = self.active + 1;
    }

    /// Row `i`'s call came back well-formed; the unit now extracts JSON.
    pub fn response_received(&mut self, i: usize)
        requires
            old(self).wf(),
            i < old(self).total(),
            old(self).phases()[i as int] is InFlight,
        ensures
            final(self).wf(),
            final(self).phases() == old(self).phases().update(i as int, RowPhase::Parsing),
            final(self).concurrency() == old(self).concurrency(),
            final(self).cancelled() == old(self).cancelled(),
            final(self).active() == old(self).active(),
            final(self).held() == old(self).held(),
            final(self).succeeded() == old(self).succeeded(),
            final(self).failed() == old(self).failed(),
            final(self).completed() == old(self).completed(),
    {
        proof {
            lemma_count_update_all(old(self).phases@, i as int, RowPhase::Parsing);
        }
        self.phases[i] = RowPhase::Parsing;
    }

    /// Row `i` reached its end: success when `ok`, failure otherwise.
    /// Its slot is released, the in-flight count falls, and exactly one
    /// of the success and failure counters rises together with the
    /// completed counter.
    pub fn finish_row(&mut self, i: usize, ok: bool)
        requires
            old(self).wf(),
            i < old(self).total(),
            spec_in_flight(old(self).phases()[i as int]),
        ensures
            final(self).wf(),
            final(self).phases() == old(self).phases().update(
                i as int,
                if ok {
                    RowPhase::Succeeded
                } else {
                    RowPhase::Failed
                },
            ),
            final(self).concurrency() == old(self).concurrency(),
            final(self).cancelled() == old(self).cancelled(),
            final(self).active() == old(self).active() - 1,
            final(self).held() == old(self).held() - 1,
            final(self).succeeded() == old(self).succeeded() + (if ok {
                1int
            } else {
                0int
            }),
            final(self).failed() == old(self).failed() + (if ok {
                0int
            } else {
                1int
            }),
            final(self).completed() == old(self).completed() + 1,
    {
        let ph = if ok {
            RowPhase::Succeeded
        } else {
            RowPhase::Failed
        };
        proof {
            let phs = old(self).phases@;
            lemma_count_update_all(phs, i as int, ph);
            lemma_count_pos(phs, |p: RowPhase| spec_in_flight(p), i as int);
            lemma_count_pos(phs, |p: RowPhase| spec_holds_slot(p), i as int);
            lemma_count_done_bound(phs);
            lemma_count_le(
                phs,
                |p: RowPhase| p is Succeeded || p is Failed,
                |p: RowPhase| !spec_in_flight(p),
            );
        }
        self.phases[i] = ph;
        self.active = self.active - 1;
        self.held = self.held - 1;
        if ok {
            self.succeeded = self.succeeded + 1;
        } else {
            self.failed = self.failed + 1;
        }
        self.completed = self.completed + 1;
    }

    /// The current progress pair (completed, total) behind a
    /// `RowProgress` event.
    pub fn progress(&self) -> (r: (u32, u32))
        requires
            self.wf(),
        ensures
            r.0 as int == self.completed(),
            r.1 as int == self.total(),
    {
        (self.completed, self.phases.len() as u32)
    }

    /// The in-flight request count behind an `ActiveRequestCount` event.
    pub fn active_count(&self) -> (r: u32)
        ensures
            r as int == self.active(),
    {
        self.active
    }

    /// How many concurrency slots are held.
    pub fn held_count(&self) -> (r: u32)
        ensures
            r as int == self.held(),
    {
        self.held
    }

    /// Where row `i` stands.
    pub fn row_phase(&self, i: usize) -> (r: RowPhase)
        requires
            i < self.total(),
        ensures
            r == self.phases()[i as int],
    {
        self.phases[i]
    }

    /// Whether cancellation has been requested.
    pub fn is_cancelled(&self) -> (r: bool)
        ensures
            r == self.cancelled(),
    {
        self.cancelled
    }

    /// The final aggregate (succeeded, failed) behind the one
    /// `BatchComplete` event.
    pub fn aggregate(&self) -> (r: (u32, u32))
        ensures
            r.0 as int == self.succeeded(),
            r.1 as int == self.failed(),
    {
        (self.succeeded, self.failed)
    }

    /// The in-flight count never exceeds the concurrency bound: at most
    /// C `ActiveRequestCount` observations are ever simultaneous.
    pub proof fn lemma_active_bounded(self)
        requires
            self.wf(),
        ensures
            self.active() <= self.concurrency(),
    {
        lemma_count_le(
            self.phases@,
            |ph: RowPhase| spec_in_flight(ph),
            |ph: RowPhase| spec_holds_slot(ph),
        );
    }

    /// The counters agree at every reachable state: rows counted done
    /// are exactly the successes plus the failures, and none of the
    /// counters outruns the batch.
    pub proof fn lemma_counters_agree(self)
        requires
            self.wf(),
        ensures
            self.completed() == self.succeeded() + self.failed(),
            0 <= self.succeeded(),
            0 <= self.failed(),
            self.completed() <= self.total(),
    {
        lemma_count_pos_bounds(self.phases@);
    }

    /// Every row reached an end.
    pub open spec fn all_done(self) -> bool {
        forall|k: int| 0 <= k < self.total() ==> spec_terminal(#[trigger] self.phases()[k])
    }

    /// When the batch has drained, the aggregate counts exactly the rows
    /// that ran: completed rows plus abandoned rows cover the batch, and
    /// without cancellation every row completed.
    pub proof fn lemma_final_aggregate(self)
        requires
            self.wf(),
            self.all_done(),
        ensures
            self.completed() == self.succeeded() + self.failed(),
            self.completed() == self.total() - spec_count(
                self.phases(),
                |ph: RowPhase| ph is Abandoned,
            ),
            !self.cancelled() ==> self.completed() == self.total(),
    {
        let phs = self.phases@;
        assert forall|k: int| 0 <= k < phs.len() implies spec_terminal(#[trigger] phs[k]) by {
            assert(spec_terminal(self.phases()[k]));
        }
        lemma_count_terminal_partition(phs);
    }
}

/// A sequence of pending rows has no slot, flight, success, failure or
/// abandonment in it.
proof fn lemma_count_all_pending(phases: Seq<RowPhase>)
    requires
        forall|k: int| 0 <= k < phases.len() ==> #[trigger] phases[k] is Pending,
    ensures
        spec_count(phases, |ph: RowPhase| spec_holds_slot(ph)) == 0,
        spec_count(phases, |ph: RowPhase| spec_in_flight(ph)) == 0,
        spec_count(phases, |ph: RowPhase| ph is Succeeded) == 0,
        spec_count(phases, |ph: RowPhase| ph is Failed) == 0,
        spec_count(phases, |ph: RowPhase| ph is Abandoned) == 0,
    decreases phases.len(),
{
    if phases.len() > 0 {
        lemma_count_all_pending(phases.skip(1));
    }
}

/// Updating index `i` moves each count by the difference between the new
/// and old phase under the counted predicate.
proof fn lemma_count_update(phases: Seq<RowPhase>, p: spec_fn(RowPhase) -> bool, i: int, v: RowPhase)
    requires
        0 <= i < phases.len(),
    ensures
        spec_count(phases.update(i, v), p) == spec_count(phases, p) - (if p(phases[i]) {
            1int
        } else {
            0int
        }) + (if p(v) {
            1int
        } else {
            0int
        }),
    decreases phases.len(),
{
    if i == 0 {
        assert(phases.update(0, v).skip(1) =~= phases.skip(1));
        assert(phases.update(0, v)[0] == v);
    } else {
        assert(phases.update(i, v).skip(1) =~= phases.skip(1).update(i - 1, v));
        assert(phases.update(i, v)[0] == phases[0]);
        lemma_count_update(phases.skip(1), p, i - 1, v);
    }
}

/// `lemma_count_update` for every predicate the invariant counts.
proof fn lemma_count_update_all(phases: Seq<RowPhase>, i: int, v: RowPhase)
    requires
        0 <= i < phases.len(),
    ensures
        spec_count(phases.update(i, v), |ph: RowPhase| spec_holds_slot(ph)) == spec_count(
            phases,
            |ph: RowPhase| spec_holds_slot(ph),
        ) - (if spec_holds_slot(phases[i]) {
            1int
        } else {
            0int
        }) + (if spec_holds_slot(v) {
            1int
        } else {
            0int
        }),
        spec_count(phases.update(i, v), |ph: RowPhase| spec_in_flight(ph)) == spec_count(
            phases,
            |ph: RowPhase| spec_in_flight(ph),
        ) - (if spec_in_flight(phases[i]) {
            1int
        } else {
            0int
        }) + (if spec_in_flight(v) {
            1int
        } else {
            0int
        }),
        spec_count(phases.update(i, v), |ph: RowPhase| ph is Succeeded) == spec_count(
            phases,
            |ph: RowPhase| ph is Succeeded,
        ) - (if phases[i] is Succeeded {
            1int
        } else {
            0int
        }) + (if v is Succeeded {
            1int
        } else {
            0int
        }),
        spec_count(phases.update(i, v), |ph: RowPhase| ph is Failed) == spec_count(
            phases,
            |ph: RowPhase| ph is Failed,
        ) - (if phases[i] is Failed {
            1int
        } else {
            0int
        }) + (if v is Failed {
            1int
        } else {
            0int
        }),
        spec_count(phases.update(i, v), |ph: RowPhase| ph is Abandoned) == spec_count(
            phases,
            |ph: RowPhase| ph is Abandoned,
        ) - (if phases[i] is Abandoned {
            1int
        } else {
            0int
        }) + (if v is Abandoned {
            1int
        } else {
            0int
        }),
{
    lemma_count_update(phases, |ph: RowPhase| spec_holds_slot(ph), i, v);
    lemma_count_update(phases, |ph: RowPhase| spec_in_flight(ph), i, v);
    lemma_count_update(phases, |ph: RowPhase| ph is Succeeded, i, v);
    lemma_count_update(phases, |ph: RowPhase| ph is Failed, i, v);
    lemma_count_update(phases, |ph: RowPhase| ph is Abandoned, i, v);
}

/// A pointwise-weaker predicate counts no more rows.
proof fn lemma_count_le(phases: Seq<RowPhase>, p: spec_fn(RowPhase) -> bool, q: spec_fn(
    RowPhase,
) -> bool)
    requires
        forall|ph: RowPhase| #[trigger] p(ph) ==> q(ph),
    ensures
        spec_count(phases, p) <= spec_count(phases, q),
        0 <= spec_count(phases, p),
        spec_count(phases, q) <= phases.len(),
    decreases phases.len(),
{
    if phases.len() > 0 {
        lemma_count_le(phases.skip(1), p, q);
    }
}

/// Successes and failures are disjoint, so their counts fit in the
/// sequence together.
proof fn lemma_count_pos_bounds(phases: Seq<RowPhase>)
    ensures
        spec_count(phases, |p: RowPhase| p is Succeeded) + spec_count(
            phases,
            |p: RowPhase| p is Failed,
        ) <= phases.len(),
        0 <= spec_count(phases, |p: RowPhase| p is Succeeded),
        0 <= spec_count(phases, |p: RowPhase| p is Failed),
    decreases phases.len(),
{
    if phases.len() > 0 {
        lemma_count_pos_bounds(phases.skip(1));
    }
}

/// A row that satisfies `p` makes the count positive.
proof fn lemma_count_pos(phases: Seq<RowPhase>, p: spec_fn(RowPhase) -> bool, i: int)
    requires
        0 <= i < phases.len(),
        p(phases[i]),
    ensures
        spec_count(phases, p) >= 1,
    decreases phases.len(),
{
    lemma_count_le(phases, p, p);
    if i > 0 {
        lemma_count_pos(phases.skip(1), p, i - 1);
    } else {
        lemma_count_le(phases.skip(1), p, p);
    }
}

/// Done rows plus rows off the flight path fill the sequence: counting
/// them together, successes and failures leave exactly the rows that are
/// not in flight.
proof fn lemma_count_done_bound(phases: Seq<RowPhase>)
    ensures
        spec_count(phases, |p: RowPhase| p is Succeeded || p is Failed) == spec_count(
            phases,
            |p: RowPhase| p is Succeeded,
        ) + spec_count(phases, |p: RowPhase| p is Failed),
        spec_count(phases, |p: RowPhase| !spec_in_flight(p)) == phases.len() - spec_count(
            phases,
            |p: RowPhase| spec_in_flight(p),
        ),
    decreases phases.len(),
{
    if phases.len() > 0 {
        lemma_count_done_bound(phases.skip(1));
    }
}

/// Over terminal-only phases, successes, failures and abandonments
/// partition the rows.
proof fn lemma_count_terminal_partition(phases: Seq<RowPhase>)
    requires
        forall|k: int| 0 <= k < phases.len() ==> spec_terminal(#[trigger] phases[k]),
    ensures
        spec_count(phases, |ph: RowPhase| ph is Succeeded) + spec_count(
            phases,
            |ph: RowPhase| ph is Failed,
        ) + spec_count(phases, |ph: RowPhase| ph is Abandoned) == phases.len(),
    decreases phases.len(),
{
    if phases.len() > 0 {
        lemma_count_terminal_partition(phases.skip(1));
    }
}

} // verus!
