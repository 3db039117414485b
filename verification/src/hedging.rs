//! Scheduling of hedged publish attempts.
//!
//! Every batch that is sent gets an entry in a queue ordered by deadline. When
//! the earliest deadline passes, each due batch that is still unresolved gets a
//! hedged attempt if the token bucket grants a token, and is scheduled again one
//! delay later. The first attempt of a batch to complete resolves it; a hedged
//! attempt that fails is ignored.
use crate::attempt::{attempt_options, options_for, AttemptKind, AttemptOptions};
use crate::message::Timestamp;
use crate::token_bucket::{acquired, can_acquire, refilled, TokenBucket, SCALE};
use vstd::prelude::*;

verus! {

/// An entry in the queue of scheduled hedges.
#[derive(Clone, Copy, Debug, PartialEq, Eq, Structural)]
pub struct HedgeItem {
    /// The batch to hedge.
    pub batch: u64,
    /// When the next hedge of the batch is due.
    pub deadline: u64,
    /// The attempt number that the next hedge carries.
    pub attempt_count: i32,
    /// When the batch was first published.
    pub start_time: Option<Timestamp>,
}

/// A hedged attempt to send now.
#[derive(Clone, Copy, Debug, PartialEq, Eq, Structural)]
pub struct HedgeDispatch {
    pub batch: u64,
    pub attempt_count: i32,
    /// When the batch was first published.
    pub start_time: Option<Timestamp>,
}

impl HedgeDispatch {
    /// The request options of this hedge: no retry, a 10 second limit, and its
    /// attempt count and its batch's start time for the client telemetry header.
    pub fn options(&self) -> (o: AttemptOptions)
        ensures
            options_for(
                AttemptKind::ScheduledHedge {
                    attempt_count: self.attempt_count,
                    start_time: self.start_time,
                },
                o,
            ),
    {
        attempt_options(
            AttemptKind::ScheduledHedge { attempt_count: self.attempt_count, start_time: self.start_time },
        )
    }
}

/// The queue is ordered by deadline.
pub open spec fn sorted_by_deadline(q: Seq<HedgeItem>) -> bool {
    forall|i: int, j: int| 0 <= i <= j < q.len() ==> #[trigger] q[i].deadline <= #[trigger] q[j].deadline
}

/// Number of due entries at the front of the queue.
pub open spec fn due_count(q: Seq<HedgeItem>, now: u64) -> int
    decreases q.len(),
{
    if q.len() == 0 {
        0
    } else if q[0].deadline <= now {
        1 + due_count(q.drop_first(), now)
    } else {
        0
    }
}

/// Processes due entries in order: the entry of a resolved batch is dropped;
/// any other one is scheduled again at `now + delay`, and gets a hedged attempt
/// (carrying its attempt count, which then grows by one) when a token can be
/// acquired. Yields the entries scheduled again, the attempts to send, and the
/// balance left.
pub open spec fn process_due(
    items: Seq<HedgeItem>,
    resolved: Seq<bool>,
    tokens: int,
    now: u64,
    delay: u64,
) -> (Seq<HedgeItem>, Seq<HedgeDispatch>, int)
    decreases items.len(),
{
    if items.len() == 0 {
        (Seq::empty(), Seq::empty(), tokens)
    } else {
        let (requeued, dispatched, t) = process_due(items.drop_last(), resolved, tokens, now, delay);
        let it = items.last();
        if resolved[it.batch as int] {
            (requeued, dispatched, t)
        } else if can_acquire(t) {
            (
                requeued.push(
                    HedgeItem {
                        batch: it.batch,
                        deadline: (now + delay) as u64,
                        attempt_count: (it.attempt_count + 1) as i32,
                        start_time: it.start_time,
                    },
                ),
                dispatched.push(
                    HedgeDispatch { batch: it.batch, attempt_count: it.attempt_count, start_time: it.start_time },
                ),
                acquired(t),
            )
        } else {
            (
                requeued.push(
                    HedgeItem {
                        batch: it.batch,
                        deadline: (now + delay) as u64,
                        attempt_count: it.attempt_count,
                        start_time: it.start_time,
                    },
                ),
                dispatched,
                t,
            )
        }
    }
}

/// The queue, the batches' resolution and the token bucket of the hedging
/// scheduler.
pub struct HedgingScheduler {
    queue: Vec<HedgeItem>,
    resolved: Vec<bool>,
    token_bucket: TokenBucket,
    delay: u64,
    clock: u64,
    hedges_sent: Ghost<Seq<nat>>,
    scheduled_at: Ghost<Seq<u64>>,
    start_times: Ghost<Seq<Option<Timestamp>>>,
}

/// How many of the attempts are for batch `b`.
pub open spec fn dispatch_count(ds: Seq<HedgeDispatch>, b: u64) -> nat
    decreases ds.len(),
{
    if ds.len() == 0 {
        0
    } else {
        dispatch_count(ds.drop_last(), b) + if ds.last().batch == b { 1nat } else { 0nat }
    }
}

proof fn lemma_dispatch_count_push(ds: Seq<HedgeDispatch>, x: HedgeDispatch, b: u64)
    ensures
        dispatch_count(ds.push(x), b) == dispatch_count(ds, b) + if x.batch == b { 1nat } else { 0nat },
{
    assert(ds.push(x).drop_last() == ds);
}

proof fn lemma_dispatch_count_absent(ds: Seq<HedgeDispatch>, b: u64)
    requires
        forall|k: int| 0 <= k < ds.len() ==> (#[trigger] ds[k]).batch != b,
    ensures
        dispatch_count(ds, b) == 0,
    decreases ds.len(),
{
    if ds.len() > 0 {
        let init = ds.drop_last();
        assert forall|k: int| 0 <= k < init.len() implies (#[trigger] init[k]).batch != b by {
            assert(init[k] == ds[k]);
        }
        lemma_dispatch_count_absent(init, b);
    }
}

impl HedgingScheduler {
    /// Scheduled hedges, earliest first.
    pub closed spec fn queue(&self) -> Seq<HedgeItem> {
        self.queue@
    }

    /// For each batch (by id), whether it has been resolved.
    pub closed spec fn resolved(&self) -> Seq<bool> {
        self.resolved@
    }

    /// The bucket that rations hedged attempts.
    pub closed spec fn bucket(&self) -> TokenBucket {
        self.token_bucket
    }

    /// Time between two hedges of a batch.
    pub closed spec fn delay(&self) -> u64 {
        self.delay
    }

    /// The latest time the scheduler has seen.
    pub closed spec fn clock(&self) -> u64 {
        self.clock
    }

    /// For each batch (by id), how many hedged attempts have been sent for it.
    pub closed spec fn hedges_sent(&self) -> Seq<nat> {
        self.hedges_sent@
    }

    /// For each batch (by id), when it was last scheduled: its registration,
    /// or the latest tick that found it due and unresolved. Its next hedge is
    /// due one delay later.
    pub closed spec fn scheduled_at(&self) -> Seq<u64> {
        self.scheduled_at@
    }

    /// For each batch (by id), the publish start time it was registered with.
    pub closed spec fn start_times(&self) -> Seq<Option<Timestamp>> {
        self.start_times@
    }

    /// The scheduler's invariant.
    pub open spec fn wf(&self) -> bool {
        &&& self.delay() > 0
        &&& self.bucket().wf()
        &&& sorted_by_deadline(self.queue())
        &&& self.hedges_sent().len() == self.resolved().len()
        &&& self.scheduled_at().len() == self.resolved().len()
        &&& self.start_times().len() == self.resolved().len()
        &&& forall|b: int| 0 <= b < self.scheduled_at().len() ==> #[trigger] self.scheduled_at()[b] <= self.clock()
        &&& forall|i: int|
            0 <= i < self.queue().len() ==> {
                &&& (#[trigger] self.queue()[i]).batch < self.resolved().len()
                &&& self.queue()[i].deadline <= self.clock() + self.delay()
                &&& self.queue()[i].attempt_count == self.hedges_sent()[self.queue()[i].batch as int] + 1
                &&& self.queue()[i].deadline == self.scheduled_at()[self.queue()[i].batch as int] + self.delay()
                &&& self.queue()[i].start_time == self.start_times()[self.queue()[i].batch as int]
            }
        &&& forall|i: int, j: int|
            0 <= i < self.queue().len() && 0 <= j < self.queue().len() && i != j
                ==> #[trigger] self.queue()[i].batch != #[trigger] self.queue()[j].batch
    }

    /// No scheduled entry has reached the largest attempt count.
    pub open spec fn attempts_below_max_spec(&self) -> bool {
        forall|i: int| 0 <= i < self.queue().len() ==> (#[trigger] self.queue()[i]).attempt_count < i32::MAX
    }

    /// A scheduler with no batch; hedges of a batch are `delay` apart.
    pub fn new(delay: u64, token_bucket: TokenBucket) -> (s: Self)
        requires
            delay > 0,
            token_bucket.wf(),
        ensures
            s.wf(),
            s.queue().len() == 0,
            s.resolved().len() == 0,
            s.bucket() == token_bucket,
            s.delay() == delay,
            s.clock() == 0,
            s.hedges_sent().len() == 0,
            s.scheduled_at().len() == 0,
            s.start_times().len() == 0,
    {
        HedgingScheduler {
            queue: Vec::new(),
            resolved: Vec::new(),
            token_bucket,
            delay,
            clock: 0,
            hedges_sent: Ghost(Seq::empty()),
            scheduled_at: Ghost(Seq::empty()),
            start_times: Ghost(Seq::empty()),
        }
    }

    /// The latest time the scheduler has seen.
    pub fn current_clock(&self) -> (c: u64)
        ensures
            c == self.clock(),
    {
        self.clock
    }

    /// Time between two hedges of a batch.
    pub fn hedge_delay(&self) -> (d: u64)
        ensures
            d == self.delay(),
    {
        self.delay
    }

    /// Number of batches registered so far.
    pub fn registered_batches(&self) -> (n: usize)
        ensures
            n == self.resolved().len(),
    {
        self.resolved.len()
    }

    /// The current balance of the token bucket.
    pub fn available_scaled_tokens(&self) -> (t: u32)
        ensures
            t == self.bucket().tokens(),
    {
        self.token_bucket.available_scaled_tokens()
    }

    /// Adds scaled units to the token bucket, as a successful request does.
    pub fn refill(&mut self)
        requires
            old(self).wf(),
        ensures
            final(self).wf(),
            final(self).bucket().tokens() == refilled(
                old(self).bucket().tokens() as int,
                old(self).bucket().scaled_refill_ratio() as int,
                old(self).bucket().scaled_max_tokens() as int,
            ),
            final(self).bucket().scaled_max_tokens() == old(self).bucket().scaled_max_tokens(),
            final(self).bucket().scaled_refill_ratio() == old(self).bucket().scaled_refill_ratio(),
            final(self).queue() == old(self).queue(),
            final(self).resolved() == old(self).resolved(),
            final(self).delay() == old(self).delay(),
            final(self).clock() == old(self).clock(),
            final(self).hedges_sent() == old(self).hedges_sent(),
            final(self).scheduled_at() == old(self).scheduled_at(),
            final(self).start_times() == old(self).start_times(),
    {
        self.token_bucket.refill();
    }

    /// When the earliest scheduled hedge is due, if any hedge is scheduled.
    pub fn next_deadline(&self) -> (d: Option<u64>)
        requires
            self.wf(),
        ensures
            match d {
                Some(t) => self.queue().len() > 0 && t == self.queue()[0].deadline && forall|i: int|
                    0 <= i < self.queue().len() ==> t <= #[trigger] self.queue()[i].deadline,
                None => self.queue().len() == 0,
            },
    {
        if self.queue.len() == 0 {
            None
        } else {
            Some(self.queue[0].deadline)
        }
    }

    /// True when no scheduled entry has reached the largest attempt count.
    pub fn attempts_below_max(&self) -> (b: bool)
        ensures
            b == self.attempts_below_max_spec(),
    {
        let mut i: usize = 0;
        while i < self.queue.len()
            invariant
                i <= self.queue.len(),
                forall|j: int| 0 <= j < i ==> (#[trigger] self.queue@[j]).attempt_count < i32::MAX,
            decreases self.queue.len() - i,
        {
            if self.queue[i].attempt_count == i32::MAX {
                assert(self.queue()[i as int].attempt_count == i32::MAX);
                return false;
            }
            i = i + 1;
        }
        true
    }

    /// Registers a batch that was just sent, first published at `start_time`:
    /// its first hedge is due one delay from `now`, with attempt count 1.
    /// Returns the batch's id.
    pub fn register_batch(&mut self, now: u64, start_time: Option<Timestamp>) -> (id: u64)
        requires
            old(self).wf(),
            old(self).clock() <= now,
            now + old(self).delay() <= u64::MAX,
            old(self).resolved().len() < u64::MAX,
        ensures
            final(self).wf(),
            id == old(self).resolved().len(),
            final(self).resolved() == old(self).resolved().push(false),
            final(self).queue() == old(self).queue().push(
                HedgeItem {
                    batch: id,
                    deadline: (now + old(self).delay()) as u64,
                    attempt_count: 1,
                    start_time,
                },
            ),
            final(self).bucket() == old(self).bucket(),
            final(self).delay() == old(self).delay(),
            final(self).clock() == now,
            final(self).hedges_sent() == old(self).hedges_sent().push(0),
            final(self).scheduled_at() == old(self).scheduled_at().push(now),
            final(self).start_times() == old(self).start_times().push(start_time),
    {
        let id = self.resolved.len() as u64;
        self.resolved.push(false);
        self.hedges_sent = Ghost(self.hedges_sent@.push(0));
        self.scheduled_at = Ghost(self.scheduled_at@.push(now));
        self.start_times = Ghost(self.start_times@.push(start_time));
        let item = HedgeItem { batch: id, deadline: now + self.delay, attempt_count: 1, start_time };
        self.queue.push(item);
        self.clock = now;
        proof {
            let q = self.queue@;
            assert forall|i: int, j: int| 0 <= i <= j < q.len() implies #[trigger] q[i].deadline
                <= #[trigger] q[j].deadline by {
                if j < q.len() - 1 {
                    assert(q[i] == old(self).queue@[i] && q[j] == old(self).queue@[j]);
                } else if i < q.len() - 1 {
                    assert(q[i] == old(self).queue@[i]);
                }
            }
            assert forall|i: int| 0 <= i < q.len() implies {
                &&& (#[trigger] q[i]).batch < self.resolved@.len()
                &&& q[i].deadline <= self.clock + self.delay
                &&& q[i].attempt_count == self.hedges_sent@[q[i].batch as int] + 1
                &&& q[i].deadline == self.scheduled_at@[q[i].batch as int] + self.delay
                &&& q[i].start_time == self.start_times@[q[i].batch as int]
            } by {
                if i < q.len() - 1 {
                    assert(q[i] == old(self).queue@[i]);
                }
            }
            assert forall|b: int| 0 <= b < self.scheduled_at@.len() implies #[trigger] self.scheduled_at@[b]
                <= self.clock by {
                if b < old(self).scheduled_at@.len() {
                    assert(self.scheduled_at@[b] == old(self).scheduled_at@[b]);
                }
            }
            assert forall|i: int, j: int|
                0 <= i < q.len() && 0 <= j < q.len() && i != j implies #[trigger] q[i].batch
                != #[trigger] q[j].batch by {
                if i < q.len() - 1 {
                    assert(q[i] == old(self).queue@[i]);
                }
                if j < q.len() - 1 {
                    assert(q[j] == old(self).queue@[j]);
                }
            }
        }
        id
    }

    /// True when the batch has been resolved.
    pub fn is_done(&self, id: u64) -> (done: bool)
        requires
            id < self.resolved().len(),
        ensures
            done == self.resolved()[id as int],
    {
        let len = self.resolved.len();
        assert(id < len);
        self.resolved[id as usize]
    }

    /// An attempt of the batch completed. The first completion resolves the
    /// batch, and a successful one refills the token bucket; later completions
    /// change nothing. Returns whether this completion resolved the batch.
    pub fn complete(&mut self, id: u64, ok: bool) -> (resolved_now: bool)
        requires
            old(self).wf(),
            id < old(self).resolved().len(),
        ensures
            final(self).wf(),
            resolved_now == !old(self).resolved()[id as int],
            final(self).resolved() == old(self).resolved().update(id as int, true),
            final(self).queue() == old(self).queue(),
            final(self).delay() == old(self).delay(),
            final(self).clock() == old(self).clock(),
            final(self).hedges_sent() == old(self).hedges_sent(),
            final(self).scheduled_at() == old(self).scheduled_at(),
            final(self).start_times() == old(self).start_times(),
            final(self).bucket().scaled_max_tokens() == old(self).bucket().scaled_max_tokens(),
            final(self).bucket().scaled_refill_ratio() == old(self).bucket().scaled_refill_ratio(),
            final(self).bucket().tokens() == if resolved_now && ok {
                refilled(
                    old(self).bucket().tokens() as int,
                    old(self).bucket().scaled_refill_ratio() as int,
                    old(self).bucket().scaled_max_tokens() as int,
                )
            } else {
                old(self).bucket().tokens() as int
            },
    {
        let len = self.resolved.len();
        assert(id < len);
        if self.resolved[id as usize] {
            assert(self.resolved@.update(id as int, true) == self.resolved@);
            false
        } else {
            self.resolved.set(id as usize, true);
            if ok {
                self.token_bucket.refill();
            }
            true
        }
    }

    /// A hedged attempt of the batch completed. Only a successful hedged attempt
    /// completes the batch; a failed one is ignored. Returns whether this
    /// completion resolved the batch.
    pub fn complete_hedged(&mut self, id: u64, ok: bool) -> (resolved_now: bool)
        requires
            old(self).wf(),
            id < old(self).resolved().len(),
        ensures
            final(self).wf(),
            resolved_now == (ok && !old(self).resolved()[id as int]),
            ok ==> final(self).resolved() == old(self).resolved().update(id as int, true),
            !ok ==> *final(self) == *old(self),
            final(self).queue() == old(self).queue(),
            final(self).hedges_sent() == old(self).hedges_sent(),
            final(self).scheduled_at() == old(self).scheduled_at(),
            final(self).start_times() == old(self).start_times(),
            final(self).bucket().tokens() == if resolved_now {
                refilled(
                    old(self).bucket().tokens() as int,
                    old(self).bucket().scaled_refill_ratio() as int,
                    old(self).bucket().scaled_max_tokens() as int,
                )
            } else {
                old(self).bucket().tokens() as int
            },
    {
        if ok {
            self.complete(id, true)
        } else {
            false
        }
    }

    /// The earliest deadline passed: every due entry is processed, in deadline
    /// order, as [process_due] says. The entries processed leave the front of
    /// the queue and the ones scheduled again join its end. Returns the hedged
    /// attempts to send.
    pub fn on_timer(&mut self, now: u64) -> (dispatched: Vec<HedgeDispatch>)
        requires
            old(self).wf(),
            old(self).attempts_below_max_spec(),
            old(self).clock() <= now,
            now + old(self).delay() <= u64::MAX,
        ensures
            final(self).wf(),
            ({
                let d = due_count(old(self).queue(), now);
                let (requeued, sent, tokens) = process_due(
                    old(self).queue().take(d),
                    old(self).resolved(),
                    old(self).bucket().tokens() as int,
                    now,
                    old(self).delay(),
                );
                &&& 0 <= d <= old(self).queue().len()
                &&& final(self).queue() == old(self).queue().skip(d) + requeued
                &&& dispatched@ == sent
                &&& final(self).bucket().tokens() == tokens
            }),
            final(self).resolved() == old(self).resolved(),
            final(self).bucket().scaled_max_tokens() == old(self).bucket().scaled_max_tokens(),
            final(self).bucket().scaled_refill_ratio() == old(self).bucket().scaled_refill_ratio(),
            final(self).delay() == old(self).delay(),
            final(self).clock() == now,
            forall|k: int|
                0 <= k < dispatched@.len() ==> (#[trigger] dispatched@[k]).attempt_count
                    == old(self).hedges_sent()[dispatched@[k].batch as int] + 1,
            final(self).hedges_sent().len() == old(self).hedges_sent().len(),
            forall|k: int|
                0 <= k < dispatched@.len() ==> old(self).scheduled_at()[(#[trigger] dispatched@[k]).batch as int]
                    + old(self).delay() <= now && final(self).scheduled_at()[dispatched@[k].batch as int] == now,
            final(self).scheduled_at().len() == old(self).scheduled_at().len(),
            final(self).start_times() == old(self).start_times(),
            ({
                let due = old(self).queue().take(due_count(old(self).queue(), now));
                let unresolved = unresolved_batches(due, old(self).resolved());
                let whole_tokens = old(self).bucket().tokens() / SCALE;
                &&& dispatched@.len() == if unresolved.len() <= whole_tokens {
                    unresolved.len() as int
                } else {
                    whole_tokens as int
                }
                &&& dispatched_batches(dispatched@) == unresolved.take(dispatched@.len() as int)
                &&& final(self).bucket().tokens() == old(self).bucket().tokens() - SCALE
                    * dispatched@.len()
            }),
            forall|k: int|
                0 <= k < dispatched@.len() ==> (#[trigger] dispatched@[k]).start_time
                    == old(self).start_times()[dispatched@[k].batch as int],
            forall|b: int|
                0 <= b < old(self).scheduled_at().len() ==> #[trigger] final(self).scheduled_at()[b]
                    == old(self).scheduled_at()[b] || final(self).scheduled_at()[b] == now,
            forall|k1: int, k2: int|
                0 <= k1 < dispatched@.len() && 0 <= k2 < dispatched@.len() && k1 != k2
                    ==> #[trigger] dispatched@[k1].batch != #[trigger] dispatched@[k2].batch,
            forall|b: int|
                0 <= b < old(self).hedges_sent().len() ==> #[trigger] final(self).hedges_sent()[b]
                    == old(self).hedges_sent()[b] + dispatch_count(dispatched@, b as u64),
    {
        let ghost old_queue = self.queue@;
        let ghost hs0 = self.hedges_sent@;
        let ghost mut sent: Seq<nat> = hs0;
        let ghost at0 = self.scheduled_at@;
        let ghost st = self.start_times@;
        let ghost mut at: Seq<u64> = at0;
        let ghost resolved = self.resolved@;
        let ghost t0 = self.token_bucket.tokens() as int;
        let delay = self.delay;
        let mut d: usize = 0;
        while d < self.queue.len() && self.queue[d].deadline <= now
            invariant
                d <= self.queue.len(),
                self.queue@ == old_queue,
                forall|i: int| 0 <= i < d ==> (#[trigger] old_queue[i]).deadline <= now,
            decreases self.queue.len() - d,
        {
            d = d + 1;
        }
        proof {
            lemma_due_count(old_queue, now, d as int);
            assert forall|i: int| 0 <= i < old_queue.take(d as int).len() implies (#[trigger] old_queue.take(
                d as int,
            )[i]).batch < resolved.len() by {
                assert(old_queue.take(d as int)[i] == old_queue[i]);
            }
            lemma_tick_work_conserving(old_queue.take(d as int), resolved, t0, now, delay);
        }
        let mut requeued: Vec<HedgeItem> = Vec::new();
        let mut dispatched: Vec<HedgeDispatch> = Vec::new();
        let mut i: usize = 0;
        while i < d
            invariant
                i <= d <= old_queue.len(),
                self.queue@ == old_queue,
                self.resolved@ == resolved,
                self.delay == delay,
                delay > 0,
                now + delay <= u64::MAX,
                self.token_bucket.wf(),
                self.token_bucket.scaled_max_tokens() == old(self).token_bucket.scaled_max_tokens(),
                self.token_bucket.scaled_refill_ratio() == old(self).token_bucket.scaled_refill_ratio(),
                forall|j: int| 0 <= j < old_queue.len() ==> {
                    &&& (#[trigger] old_queue[j]).batch < resolved.len()
                    &&& old_queue[j].attempt_count < i32::MAX
                    &&& old_queue[j].attempt_count == hs0[old_queue[j].batch as int] + 1
                },
                forall|a: int, b: int|
                    0 <= a < old_queue.len() && 0 <= b < old_queue.len() && a != b
                        ==> #[trigger] old_queue[a].batch != #[trigger] old_queue[b].batch,
                hs0.len() == resolved.len(),
                forall|j: int| 0 <= j < d ==> (#[trigger] old_queue[j]).deadline <= now,
                at0.len() == resolved.len(),
                at.len() == resolved.len(),
                st.len() == resolved.len(),
                self.start_times@ == st,
                forall|j: int|
                    0 <= j < old_queue.len() ==> (#[trigger] old_queue[j]).start_time == st[old_queue[j].batch as int],
                forall|k: int|
                    0 <= k < requeued@.len() ==> (#[trigger] requeued@[k]).start_time == st[requeued@[k].batch as int],
                forall|k: int|
                    0 <= k < dispatched@.len() ==> (#[trigger] dispatched@[k]).start_time == st[dispatched@[k].batch as int],
                forall|b: int| 0 <= b < at0.len() ==> #[trigger] at0[b] <= now,
                forall|b: int| 0 <= b < at.len() ==> #[trigger] at[b] <= now,
                forall|j: int|
                    0 <= j < old_queue.len() ==> (#[trigger] old_queue[j]).deadline == at0[old_queue[j].batch as int]
                        + delay,
                forall|j: int|
                    i <= j < old_queue.len() ==> at[(#[trigger] old_queue[j]).batch as int]
                        == at0[old_queue[j].batch as int],
                forall|k: int|
                    0 <= k < requeued@.len() ==> at[(#[trigger] requeued@[k]).batch as int] == now,
                forall|k: int|
                    0 <= k < dispatched@.len() ==> at0[(#[trigger] dispatched@[k]).batch as int] + delay <= now
                        && at[dispatched@[k].batch as int] == now && dispatched@[k].batch < resolved.len(),
                forall|b: int|
                    0 <= b < at.len() ==> #[trigger] at[b] == at0[b] || at[b] == now,
                sent.len() == resolved.len(),
                forall|b: int|
                    0 <= b < sent.len() ==> #[trigger] sent[b] == hs0[b] + dispatch_count(
                        dispatched@,
                        b as u64,
                    ),
                forall|k: int|
                    0 <= k < dispatched@.len() ==> (#[trigger] dispatched@[k]).attempt_count
                        == hs0[dispatched@[k].batch as int] + 1,
                forall|k: int, j: int|
                    0 <= k < dispatched@.len() && i <= j < old_queue.len()
                        ==> #[trigger] dispatched@[k].batch != #[trigger] old_queue[j].batch,
                forall|k: int, j: int|
                    0 <= k < requeued@.len() && i <= j < old_queue.len()
                        ==> #[trigger] requeued@[k].batch != #[trigger] old_queue[j].batch,
                forall|k1: int, k2: int|
                    0 <= k1 < requeued@.len() && 0 <= k2 < requeued@.len() && k1 != k2
                        ==> #[trigger] requeued@[k1].batch != #[trigger] requeued@[k2].batch,
                forall|k1: int, k2: int|
                    0 <= k1 < dispatched@.len() && 0 <= k2 < dispatched@.len() && k1 != k2
                        ==> #[trigger] dispatched@[k1].batch != #[trigger] dispatched@[k2].batch,
                (requeued@, dispatched@, self.token_bucket.tokens() as int) == process_due(
                    old_queue.take(i as int),
                    resolved,
                    t0,
                    now,
                    delay,
                ),
                forall|j: int| 0 <= j < requeued@.len() ==> {
                    &&& (#[trigger] requeued@[j]).deadline == now + delay
                    &&& requeued@[j].batch < resolved.len()
                    &&& requeued@[j].attempt_count == sent[requeued@[j].batch as int] + 1
                },
            decreases d - i,
        {
            let item = self.queue[i];
            let len = self.resolved.len();
            assert(item.batch < len);
            proof {
                assert(old_queue.take(i as int + 1).drop_last() == old_queue.take(i as int));
                assert(old_queue.take(i as int + 1).last() == item);
                assert(item == old_queue[i as int]);
                lemma_dispatch_count_absent(dispatched@, item.batch);
            }
            let ghost rq_before = requeued@;
            let ghost ds_before = dispatched@;
            let ghost sent_before = sent;
            let ghost at_before = at;
            if !self.resolved[item.batch as usize] {
                proof {
                    at = at.update(item.batch as int, now);
                }
                if self.token_bucket.try_acquire() {
                    let hedge = HedgeDispatch {
                        batch: item.batch,
                        attempt_count: item.attempt_count,
                        start_time: item.start_time,
                    };
                    proof {
                        sent = sent.update(item.batch as int, sent[item.batch as int] + 1);
                    }
                    dispatched.push(hedge);
                    requeued.push(
                        HedgeItem {
                            batch: item.batch,
                            deadline: now + delay,
                            attempt_count: item.attempt_count + 1,
                            start_time: item.start_time,
                        },
                    );
                } else {
                    requeued.push(
                        HedgeItem {
                            batch: item.batch,
                            deadline: now + delay,
                            attempt_count: item.attempt_count,
                            start_time: item.start_time,
                        },
                    );
                }
            }
            proof {
                assert forall|j: int| i + 1 <= j < old_queue.len() implies at[(#[trigger] old_queue[j]).batch as int]
                    == at0[old_queue[j].batch as int] by {
                    assert(old_queue[j].batch != old_queue[i as int].batch);
                }
                assert forall|k: int| 0 <= k < requeued@.len() implies at[(#[trigger] requeued@[k]).batch as int] == now by {
                    if k < rq_before.len() {
                        assert(requeued@[k] == rq_before[k]);
                    }
                }
                assert forall|k: int| 0 <= k < dispatched@.len() implies at0[(#[trigger] dispatched@[k]).batch as int]
                    + delay <= now && at[dispatched@[k].batch as int] == now && dispatched@[k].batch
                    < resolved.len() by {
                    if k < ds_before.len() {
                        assert(dispatched@[k] == ds_before[k]);
                        assert(at_before[ds_before[k].batch as int] == now);
                        assert(at0[ds_before[k].batch as int] + delay <= now);
                        assert(at[ds_before[k].batch as int] == now);
                    } else {
                        assert(dispatched@[k].batch == old_queue[i as int].batch);
                        assert(old_queue[i as int].deadline <= now);
                        assert(old_queue[i as int].deadline == at0[old_queue[i as int].batch as int] + delay);
                        assert(at[old_queue[i as int].batch as int] == now);
                    }
                }
                assert forall|k1: int, k2: int|
                    0 <= k1 < dispatched@.len() && 0 <= k2 < dispatched@.len() && k1 != k2 implies #[trigger] dispatched@[k1].batch
                    != #[trigger] dispatched@[k2].batch by {
                    if k1 < ds_before.len() {
                        assert(dispatched@[k1] == ds_before[k1]);
                    }
                    if k2 < ds_before.len() {
                        assert(dispatched@[k2] == ds_before[k2]);
                    }
                }
                assert forall|b: int| 0 <= b < at.len() implies #[trigger] at[b] == at0[b] || at[b] == now by {
                    assert(at_before[b] == at0[b] || at_before[b] == now);
                }
                assert forall|b: int| 0 <= b < sent.len() implies #[trigger] sent[b] == hs0[b]
                    + dispatch_count(dispatched@, b as u64) by {
                    if dispatched@.len() > ds_before.len() {
                        assert(dispatched@ == ds_before.push(dispatched@.last()));
                        lemma_dispatch_count_push(ds_before, dispatched@.last(), b as u64);
                        assert(sent_before[b] == hs0[b] + dispatch_count(ds_before, b as u64));
                    }
                }
                assert forall|k: int, j: int|
                    0 <= k < requeued@.len() && i + 1 <= j < old_queue.len() implies #[trigger] requeued@[k].batch
                    != #[trigger] old_queue[j].batch by {
                    if k < rq_before.len() {
                        assert(requeued@[k] == rq_before[k]);
                    } else {
                        assert(requeued@[k].batch == old_queue[i as int].batch);
                    }
                }
                assert forall|k: int, j: int|
                    0 <= k < dispatched@.len() && i + 1 <= j < old_queue.len() implies #[trigger] dispatched@[k].batch
                    != #[trigger] old_queue[j].batch by {
                    if k < ds_before.len() {
                        assert(dispatched@[k] == ds_before[k]);
                    } else {
                        assert(dispatched@[k].batch == old_queue[i as int].batch);
                    }
                }
                assert forall|k1: int, k2: int|
                    0 <= k1 < requeued@.len() && 0 <= k2 < requeued@.len() && k1 != k2 implies #[trigger] requeued@[k1].batch
                    != #[trigger] requeued@[k2].batch by {
                    if k1 < rq_before.len() {
                        assert(requeued@[k1] == rq_before[k1]);
                    }
                    if k2 < rq_before.len() {
                        assert(requeued@[k2] == rq_before[k2]);
                    }
                }
                assert forall|k: int| 0 <= k < dispatched@.len() implies (#[trigger] dispatched@[k]).attempt_count
                    == hs0[dispatched@[k].batch as int] + 1 by {
                    if k < ds_before.len() {
                        assert(dispatched@[k] == ds_before[k]);
                    }
                }
                assert forall|j: int| 0 <= j < requeued@.len() implies (#[trigger] requeued@[j]).attempt_count
                    == sent[requeued@[j].batch as int] + 1 by {
                    if j < rq_before.len() {
                        assert(requeued@[j] == rq_before[j]);
                        assert(rq_before[j].batch != old_queue[i as int].batch);
                    }
                }
            }
            i = i + 1;
        }
        let mut new_queue: Vec<HedgeItem> = Vec::new();
        let mut j: usize = d;
        while j < self.queue.len()
            invariant
                d <= j <= old_queue.len(),
                self.queue@ == old_queue,
                new_queue@ == old_queue.subrange(d as int, j as int),
            decreases self.queue.len() - j,
        {
            new_queue.push(self.queue[j]);
            proof {
                assert(old_queue.subrange(d as int, j as int + 1) == old_queue.subrange(
                    d as int,
                    j as int,
                ).push(old_queue[j as int]));
            }
            j = j + 1;
        }
        let ghost rest = new_queue@;
        new_queue.append(&mut requeued);
        self.queue = new_queue;
        self.clock = now;
        self.hedges_sent = Ghost(sent);
        self.scheduled_at = Ghost(at);
        proof {
            assert(rest == old_queue.skip(d as int));
            let q = self.queue@;
            let rq = q.skip(rest.len() as int);
            assert forall|a: int, b: int| 0 <= a <= b < q.len() implies #[trigger] q[a].deadline
                <= #[trigger] q[b].deadline by {
                if b < rest.len() {
                    assert(q[a] == old_queue[a + d] && q[b] == old_queue[b + d]);
                } else if a < rest.len() {
                    assert(q[a] == old_queue[a + d]);
                    assert(old_queue[a + d].deadline <= old(self).clock + delay);
                }
            }
            assert forall|a: int| 0 <= a < q.len() implies {
                &&& (#[trigger] q[a]).batch < self.resolved@.len()
                &&& q[a].deadline <= self.clock + self.delay
                &&& q[a].attempt_count == self.hedges_sent@[q[a].batch as int] + 1
                &&& q[a].deadline == self.scheduled_at@[q[a].batch as int] + self.delay
                &&& q[a].start_time == self.start_times@[q[a].batch as int]
            } by {
                if a < rest.len() {
                    assert(q[a] == old_queue[a + d]);
                    lemma_dispatch_count_absent(dispatched@, q[a].batch);
                } else {
                    assert(q[a] == rq[a - rest.len()]);
                }
            }
            assert forall|a: int, b: int|
                0 <= a < q.len() && 0 <= b < q.len() && a != b implies #[trigger] q[a].batch
                != #[trigger] q[b].batch by {
                if a < rest.len() {
                    assert(q[a] == old_queue[a + d]);
                } else {
                    assert(q[a] == rq[a - rest.len()]);
                }
                if b < rest.len() {
                    assert(q[b] == old_queue[b + d]);
                } else {
                    assert(q[b] == rq[b - rest.len()]);
                }
            }
        }
        dispatched
    }
}

/// What a batch sent with hedging of its own (without the shared scheduler)
/// observes while it waits.
#[derive(Clone, Copy, Debug, PartialEq, Eq, Structural)]
pub enum HedgedSendEvent {
    /// The initial attempt completed, successfully or not.
    InitialCompleted { ok: bool },
    /// A hedged attempt completed, successfully or not.
    HedgeCompleted { ok: bool },
    /// The hedging delay elapsed before any attempt completed; the delay restarts.
    DelayElapsed,
}

/// What the sender does next.
#[derive(Clone, Copy, Debug, PartialEq, Eq, Structural)]
pub enum HedgedSendAction {
    /// Resolve the batch with the initial attempt's result.
    ResolveWithInitial,
    /// Resolve the batch with the hedged attempt's response.
    ResolveWithHedge,
    /// Send one more hedged attempt, with the options of
    /// `attempt_options(AttemptKind::Hedged)`.
    SpawnHedge,
    /// Keep waiting.
    Wait,
}

/// The action for an event, given the balance of the token bucket.
pub open spec fn hedged_send_action(tokens: int, event: HedgedSendEvent) -> HedgedSendAction {
    match event {
        HedgedSendEvent::InitialCompleted { .. } => HedgedSendAction::ResolveWithInitial,
        HedgedSendEvent::HedgeCompleted { ok } => if ok {
            HedgedSendAction::ResolveWithHedge
        } else {
            HedgedSendAction::Wait
        },
        HedgedSendEvent::DelayElapsed => if can_acquire(tokens) {
            HedgedSendAction::SpawnHedge
        } else {
            HedgedSendAction::Wait
        },
    }
}

/// The balance after an event: a successful completion refills, a hedge spends a token.
pub open spec fn hedged_send_tokens(tokens: int, ratio: int, max: int, event: HedgedSendEvent) -> int {
    match event {
        HedgedSendEvent::InitialCompleted { ok } => if ok { refilled(tokens, ratio, max) } else { tokens },
        HedgedSendEvent::HedgeCompleted { ok } => if ok { refilled(tokens, ratio, max) } else { tokens },
        HedgedSendEvent::DelayElapsed => acquired(tokens),
    }
}

/// Law: on each event of a batch sent with its own hedging, the balance moves
/// by what that event costs or earns. When the delay elapses with at least one
/// whole token, exactly one hedge is sent and exactly one token (1000 scaled
/// units) is spent; with less, the sender waits and the balance stays. A
/// completion never spends: a successful one resolves the batch (a hedge only
/// when successful) and adds the refill ratio up to the cap, a failed one
/// leaves the balance as it was.
pub proof fn lemma_hedged_send_step(tokens: int, ratio: int, max: int, event: HedgedSendEvent)
    ensures
        event == HedgedSendEvent::DelayElapsed ==> if tokens >= 1000 {
            &&& hedged_send_action(tokens, event) == HedgedSendAction::SpawnHedge
            &&& hedged_send_tokens(tokens, ratio, max, event) == tokens - 1000
        } else {
            &&& hedged_send_action(tokens, event) == HedgedSendAction::Wait
            &&& hedged_send_tokens(tokens, ratio, max, event) == tokens
        },
        event matches HedgedSendEvent::InitialCompleted { ok } ==> {
            &&& hedged_send_action(tokens, event) == HedgedSendAction::ResolveWithInitial
            &&& hedged_send_tokens(tokens, ratio, max, event) == if ok {
                if tokens + ratio <= max { tokens + ratio } else { max }
            } else {
                tokens
            }
        },
        event matches HedgedSendEvent::HedgeCompleted { ok } ==> {
            &&& hedged_send_action(tokens, event) == if ok {
                HedgedSendAction::ResolveWithHedge
            } else {
                HedgedSendAction::Wait
            }
            &&& hedged_send_tokens(tokens, ratio, max, event) == if ok {
                if tokens + ratio <= max { tokens + ratio } else { max }
            } else {
                tokens
            }
        },
{
}

/// Decides what a batch sent with its own hedging does on an event: the initial
/// attempt's completion resolves the batch (refilling on success); a hedged
/// attempt resolves it only on success (refilling), its failure is discarded;
/// when the delay elapses a hedge is sent if a token can be acquired.
pub fn hedged_send_step(bucket: &mut TokenBucket, event: HedgedSendEvent) -> (action: HedgedSendAction)
    requires
        old(bucket).wf(),
    ensures
        final(bucket).wf(),
        action == hedged_send_action(old(bucket).tokens() as int, event),
        final(bucket).tokens() == hedged_send_tokens(
            old(bucket).tokens() as int,
            old(bucket).scaled_refill_ratio() as int,
            old(bucket).scaled_max_tokens() as int,
            event,
        ),
        final(bucket).scaled_max_tokens() == old(bucket).scaled_max_tokens(),
        final(bucket).scaled_refill_ratio() == old(bucket).scaled_refill_ratio(),
        event == HedgedSendEvent::DelayElapsed ==> if old(bucket).tokens() >= SCALE {
            action == HedgedSendAction::SpawnHedge && final(bucket).tokens() == old(bucket).tokens()
                - SCALE
        } else {
            action == HedgedSendAction::Wait && final(bucket).tokens() == old(bucket).tokens()
        },
{
    proof {
        lemma_hedged_send_step(
            old(bucket).tokens() as int,
            old(bucket).scaled_refill_ratio() as int,
            old(bucket).scaled_max_tokens() as int,
            event,
        );
    }
    match event {
        HedgedSendEvent::InitialCompleted { ok } => {
            if ok {
                bucket.refill();
            }
            HedgedSendAction::ResolveWithInitial
        },
        HedgedSendEvent::HedgeCompleted { ok } => {
            if ok {
                bucket.refill();
                HedgedSendAction::ResolveWithHedge
            } else {
                HedgedSendAction::Wait
            }
        },
        HedgedSendEvent::DelayElapsed => {
            if bucket.try_acquire() {
                HedgedSendAction::SpawnHedge
            } else {
                HedgedSendAction::Wait
            }
        },
    }
}

/// The batches of the entries of unresolved batches, in order.
pub open spec fn unresolved_batches(items: Seq<HedgeItem>, resolved: Seq<bool>) -> Seq<u64>
    decreases items.len(),
{
    if items.len() == 0 {
        Seq::empty()
    } else {
        let rest = unresolved_batches(items.drop_last(), resolved);
        if resolved[items.last().batch as int] {
            rest
        } else {
            rest.push(items.last().batch)
        }
    }
}

/// The batches of a sequence of entries.
pub open spec fn batches_of(items: Seq<HedgeItem>) -> Seq<u64> {
    items.map_values(|it: HedgeItem| it.batch)
}

/// Law: one tick of the scheduler spends exactly one token (`SCALE` scaled
/// units) per hedged attempt, so it sends at most as many hedges as whole
/// tokens were available; it hedges only unresolved batches; it schedules again
/// exactly the unresolved batches, in order, one delay from now; and it drops
/// the entries of resolved batches.
pub proof fn lemma_process_due(
    items: Seq<HedgeItem>,
    resolved: Seq<bool>,
    tokens: int,
    now: u64,
    delay: u64,
)
    requires
        tokens >= 0,
        forall|i: int| 0 <= i < items.len() ==> (#[trigger] items[i]).batch < resolved.len(),
    ensures
        ({
            let (requeued, dispatched, t) = process_due(items, resolved, tokens, now, delay);
            &&& 0 <= t
            &&& tokens - t == SCALE * dispatched.len()
            &&& dispatched.len() <= tokens / (SCALE as int)
            &&& forall|k: int|
                0 <= k < dispatched.len() ==> !resolved[(#[trigger] dispatched[k]).batch as int]
            &&& batches_of(requeued) == unresolved_batches(items, resolved)
            &&& forall|k: int|
                0 <= k < requeued.len() ==> (#[trigger] requeued[k]).deadline == (now + delay) as u64
        }),
    decreases items.len(),
{
    if items.len() > 0 {
        let init = items.drop_last();
        assert forall|i: int| 0 <= i < init.len() implies (#[trigger] init[i]).batch
            < resolved.len() by {
            assert(init[i] == items[i]);
        }
        lemma_process_due(init, resolved, tokens, now, delay);
        let (rq, ds, t) = process_due(init, resolved, tokens, now, delay);
        let it = items.last();
        assert(it == items[items.len() - 1]);
        if !resolved[it.batch as int] {
            let (rq2, ds2, t2) = process_due(items, resolved, tokens, now, delay);
            assert(batches_of(rq2) =~= batches_of(rq).push(it.batch));
            assert forall|k: int| 0 <= k < ds2.len() implies !resolved[(#[trigger] ds2[k]).batch as int] by {
                if k < ds.len() {
                    assert(ds2[k] == ds[k]);
                }
            }
            assert forall|k: int| 0 <= k < rq2.len() implies (#[trigger] rq2[k]).deadline == (now
                + delay) as u64 by {
                if k < rq.len() {
                    assert(rq2[k] == rq[k]);
                }
            }
        }
    }
    let (requeued, dispatched, t) = process_due(items, resolved, tokens, now, delay);
    assert(SCALE * dispatched.len() <= tokens);
    assert(dispatched.len() <= tokens / (SCALE as int)) by (nonlinear_arith)
        requires
            SCALE * dispatched.len() <= tokens,
            SCALE == 1000,
            tokens >= 0,
    ;
}

/// The batches of a sequence of hedged attempts.
pub open spec fn dispatched_batches(ds: Seq<HedgeDispatch>) -> Seq<u64> {
    ds.map_values(|d: HedgeDispatch| d.batch)
}

/// Law: a tick is work-conserving. Going through the due entries in deadline
/// order, the unresolved ones get a hedge as long as whole tokens last: the
/// number of hedges is the smaller of the number of due unresolved entries and
/// the number of whole tokens, the hedged batches are the first due unresolved
/// ones, and each hedge spends exactly one token.
pub proof fn lemma_tick_work_conserving(
    items: Seq<HedgeItem>,
    resolved: Seq<bool>,
    tokens: int,
    now: u64,
    delay: u64,
)
    requires
        tokens >= 0,
        forall|i: int| 0 <= i < items.len() ==> (#[trigger] items[i]).batch < resolved.len(),
    ensures
        ({
            let (requeued, dispatched, t) = process_due(items, resolved, tokens, now, delay);
            let unresolved = unresolved_batches(items, resolved);
            let whole_tokens = tokens / (SCALE as int);
            &&& dispatched.len() == if unresolved.len() <= whole_tokens {
                unresolved.len() as int
            } else {
                whole_tokens
            }
            &&& dispatched_batches(dispatched) == unresolved.take(dispatched.len() as int)
            &&& t == tokens - SCALE * dispatched.len()
        }),
    decreases items.len(),
{
    lemma_process_due(items, resolved, tokens, now, delay);
    if items.len() > 0 {
        let init = items.drop_last();
        assert forall|i: int| 0 <= i < init.len() implies (#[trigger] init[i]).batch
            < resolved.len() by {
            assert(init[i] == items[i]);
        }
        lemma_tick_work_conserving(init, resolved, tokens, now, delay);
        lemma_process_due(init, resolved, tokens, now, delay);
        let (rq, ds, t) = process_due(init, resolved, tokens, now, delay);
        let (rq2, ds2, t2) = process_due(items, resolved, tokens, now, delay);
        let it = items.last();
        let u = unresolved_batches(init, resolved);
        let u2 = unresolved_batches(items, resolved);
        let q = tokens / (SCALE as int);
        let n = ds.len() as int;
        assert(t == tokens - SCALE * n);
        if !resolved[it.batch as int] {
            assert(u2 == u.push(it.batch));
            if can_acquire(t) {
                // A token is left, so every earlier unresolved entry got one.
                assert(n < q) by (nonlinear_arith)
                    requires
                        tokens - 1000 * n >= 1000,
                        q == tokens / 1000,
                        tokens >= 0,
                        n >= 0,
                ;
                assert(n == u.len());
                assert(ds2 == ds.push(
                    HedgeDispatch { batch: it.batch, attempt_count: it.attempt_count, start_time: it.start_time },
                ));
                assert(dispatched_batches(ds2) =~= dispatched_batches(ds).push(it.batch));
                assert(u.take(n) =~= u);
                assert(u2.take(n + 1) =~= u2);
            } else {
                // No whole token is left: the tokens are all spent.
                assert(n >= q) by (nonlinear_arith)
                    requires
                        tokens - 1000 * n < 1000,
                        q == tokens / 1000,
                        tokens >= 0,
                        n >= 0,
                ;
                assert(ds2 == ds);
                assert(u2.take(n) =~= u.take(n));
            }
        } else {
            assert(u2 == u);
        }
    }
}

/// The loop that finds the due prefix counts exactly the due entries.
proof fn lemma_due_count(q: Seq<HedgeItem>, now: u64, d: int)
    requires
        0 <= d <= q.len(),
        forall|i: int| 0 <= i < d ==> (#[trigger] q[i]).deadline <= now,
        d == q.len() || q[d].deadline > now,
    ensures
        due_count(q, now) == d,
    decreases d,
{
    if d > 0 {
        let tail = q.drop_first();
        assert forall|i: int| 0 <= i < d - 1 implies (#[trigger] tail[i]).deadline <= now by {
            assert(tail[i] == q[i + 1]);
        }
        if d < q.len() {
            assert(tail[d - 1] == q[d]);
        }
        lemma_due_count(tail, now, d - 1);
    }
}

} // verus!
