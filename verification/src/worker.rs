//! Decisions of the background worker that batches and publishes messages.
use vstd::prelude::*;

verus! {

/// What the worker receives: a message from the publisher, or the expiry of
/// the batch timer.
pub enum WorkerEvent<T> {
    Message(T),
    TimerFired,
}

/// The messages that a sequence of events delivers, in order.
pub open spec fn received<T>(events: Seq<WorkerEvent<T>>) -> Seq<T>
    decreases events.len(),
{
    if events.len() == 0 {
        Seq::empty()
    } else {
        match events.last() {
            WorkerEvent::Message(m) => received(events.drop_last()).push(m),
            WorkerEvent::TimerFired => received(events.drop_last()),
        }
    }
}

/// The concatenation of a sequence of batches.
pub open spec fn concat_all<T>(batches: Seq<Seq<T>>) -> Seq<T>
    decreases batches.len(),
{
    if batches.len() == 0 {
        Seq::empty()
    } else {
        concat_all(batches.drop_last()) + batches.last()
    }
}

/// One step of the worker: the batch after the event, and the batches sent.
///
/// A message joins the batch, and the batch is sent once it holds `limit`
/// messages; the timer sends a batch that is not empty.
pub open spec fn worker_step<T>(batch: Seq<T>, limit: u32, event: WorkerEvent<T>) -> (Seq<T>, Seq<Seq<T>>) {
    match event {
        WorkerEvent::Message(m) => {
            let grown = batch.push(m);
            if grown.len() >= limit {
                (Seq::empty(), seq![grown])
            } else {
                (grown, Seq::empty())
            }
        },
        WorkerEvent::TimerFired => {
            if batch.len() > 0 {
                (Seq::empty(), seq![batch])
            } else {
                (batch, Seq::empty())
            }
        },
    }
}

/// The worker over a sequence of events: the final batch and all batches sent.
pub open spec fn worker_run<T>(batch: Seq<T>, limit: u32, events: Seq<WorkerEvent<T>>) -> (Seq<T>, Seq<Seq<T>>)
    decreases events.len(),
{
    if events.len() == 0 {
        (batch, Seq::empty())
    } else {
        let (b, sent) = worker_run(batch, limit, events.drop_last());
        let (b2, sent2) = worker_step(b, limit, events.last());
        (b2, sent + sent2)
    }
}

/// The batches that an optional batch to send stands for.
pub open spec fn sent_of<T>(send: Option<Vec<T>>) -> Seq<Seq<T>> {
    match send {
        Some(v) => seq![v@],
        None => Seq::empty(),
    }
}

/// A batch never holds `limit` messages (and is empty when `limit` is 0).
pub open spec fn below_limit<T>(batch: Seq<T>, limit: u32) -> bool {
    batch.len() < limit || batch.len() == 0
}

/// A batch of messages that waits for the worker to send it.
pub struct Batch<T> {
    batch: Vec<T>,
}

impl<T> Batch<T> {
    /// The messages in the batch, oldest first.
    pub closed spec fn items(&self) -> Seq<T> {
        self.batch@
    }

    /// An empty batch.
    pub fn new() -> (b: Self)
        ensures
            b.items().len() == 0,
    {
        Batch { batch: Vec::new() }
    }

    /// True when the batch holds no message.
    pub fn is_empty(&self) -> (empty: bool)
        ensures
            empty == (self.items().len() == 0),
    {
        self.batch.len() == 0
    }

    /// Number of messages in the batch.
    pub fn len(&self) -> (n: usize)
        ensures
            n == self.items().len(),
    {
        self.batch.len()
    }

    /// Adds a message at the end of the batch.
    pub fn push(&mut self, msg: T)
        ensures
            final(self).items() == old(self).items().push(msg),
    {
        self.batch.push(msg);
    }

    /// Takes the batch apart into its messages.
    pub fn into_vec(self) -> (msgs: Vec<T>)
        ensures
            msgs@ == self.items(),
    {
        self.batch
    }
}

impl<T> Default for Batch<T> {
    fn default() -> (b: Self)
        ensures
            b.items().len() == 0,
    {
        Self::new()
    }
}

/// What the worker does after receiving a message.
pub struct MessageStep<T> {
    /// The message started a new batch: restart the batch timer.
    pub reset_timer: bool,
    /// A full batch to send.
    pub send: Option<Vec<T>>,
}

/// The worker's batching state: the current batch and the message count
/// threshold that sends it.
pub struct WorkerState<T> {
    batch: Batch<T>,
    message_limit: u32,
}

impl<T> WorkerState<T> {
    /// The messages of the current batch.
    pub closed spec fn batch(&self) -> Seq<T> {
        self.batch.items()
    }

    /// The message count threshold.
    pub closed spec fn message_limit(&self) -> u32 {
        self.message_limit
    }

    /// The current batch is below the threshold.
    pub open spec fn wf(&self) -> bool {
        below_limit(self.batch(), self.message_limit())
    }

    /// A worker with an empty batch.
    pub fn new(message_limit: u32) -> (w: Self)
        ensures
            w.wf(),
            w.batch().len() == 0,
            w.message_limit() == message_limit,
    {
        WorkerState { batch: Batch::new(), message_limit }
    }

    /// True when the current batch is empty (the timer is then idle).
    pub fn batch_is_empty(&self) -> (empty: bool)
        ensures
            empty == (self.batch().len() == 0),
    {
        self.batch.is_empty()
    }

    /// A message arrives: it joins the batch (restarting the timer if it is the
    /// first of the batch), and a batch that reaches the threshold is sent.
    pub fn on_message(&mut self, msg: T) -> (step: MessageStep<T>)
        requires
            old(self).wf(),
        ensures
            final(self).wf(),
            final(self).message_limit() == old(self).message_limit(),
            step.reset_timer == (old(self).batch().len() == 0),
            old(self).batch().len() + 1 >= old(self).message_limit() ==> {
                &&& step.send matches Some(v) && v@ == old(self).batch().push(msg)
                &&& final(self).batch().len() == 0
            },
            old(self).batch().len() + 1 < old(self).message_limit() ==> {
                &&& step.send is None
                &&& final(self).batch() == old(self).batch().push(msg)
            },
            (final(self).batch(), sent_of(step.send)) == worker_step(
                old(self).batch(),
                old(self).message_limit(),
                WorkerEvent::Message(msg),
            ),
    {
        let reset_timer = self.batch.is_empty();
        self.batch.push(msg);
        if self.batch.len() as u32 >= self.message_limit {
            let mut full: Batch<T> = Batch::new();
            std::mem::swap(&mut full, &mut self.batch);
            MessageStep { reset_timer, send: Some(full.into_vec()) }
        } else {
            MessageStep { reset_timer, send: None }
        }
    }

    /// The batch timer fires: a batch that is not empty is sent.
    pub fn on_timer(&mut self) -> (send: Option<Vec<T>>)
        requires
            old(self).wf(),
        ensures
            final(self).wf(),
            final(self).message_limit() == old(self).message_limit(),
            old(self).batch().len() > 0 ==> {
                &&& send matches Some(v) && v@ == old(self).batch()
                &&& final(self).batch().len() == 0
            },
            old(self).batch().len() == 0 ==> send is None && final(self).batch() == old(self).batch(),
            (final(self).batch(), sent_of(send)) == worker_step(
                old(self).batch(),
                old(self).message_limit(),
                WorkerEvent::TimerFired,
            ),
    {
        if self.batch.is_empty() {
            None
        } else {
            let mut full: Batch<T> = Batch::new();
            std::mem::swap(&mut full, &mut self.batch);
            Some(full.into_vec())
        }
    }

    /// The channel closed: the remaining messages, if any, are sent, and the
    /// worker stops.
    pub fn on_close(self) -> (send: Option<Vec<T>>)
        ensures
            match send {
                Some(v) => v@ == self.batch() && v@.len() > 0,
                None => self.batch().len() == 0,
            },
    {
        if self.batch.is_empty() {
            None
        } else {
            Some(self.batch.into_vec())
        }
    }
}

proof fn lemma_concat_push<T>(batches: Seq<Seq<T>>, b: Seq<T>)
    ensures
        concat_all(batches + seq![b]) == concat_all(batches) + b,
{
    assert((batches + seq![b]).drop_last() == batches);
}

/// Law: whatever the events, no message is lost, duplicated or reordered: the
/// batches sent, followed by the current batch, are the initial batch followed
/// by the messages received; no empty batch is sent; and the batch stays below
/// the threshold.
pub proof fn lemma_worker_conserves_messages<T>(
    batch: Seq<T>,
    limit: u32,
    events: Seq<WorkerEvent<T>>,
)
    requires
        below_limit(batch, limit),
    ensures
        ({
            let (b, sent) = worker_run(batch, limit, events);
            &&& concat_all(sent) + b == batch + received(events)
            &&& forall|i: int| 0 <= i < sent.len() ==> (#[trigger] sent[i]).len() > 0
            &&& below_limit(b, limit)
        }),
    decreases events.len(),
{
    if events.len() > 0 {
        let init = events.drop_last();
        lemma_worker_conserves_messages(batch, limit, init);
        let (b, sent) = worker_run(batch, limit, init);
        let (b2, sent2) = worker_step(b, limit, events.last());
        match events.last() {
            WorkerEvent::Message(m) => {
                let grown = b.push(m);
                assert(received(events) == received(init).push(m));
                assert(concat_all(sent) + grown =~= (concat_all(sent) + b).push(m));
                if grown.len() >= limit {
                    assert(concat_all(sent) + grown + b2 =~= concat_all(sent) + grown);
                    lemma_concat_push(sent, grown);
                    assert(concat_all(sent + sent2) + b2 == batch + received(events));
                } else {
                    assert(sent + sent2 == sent);
                    assert(concat_all(sent + sent2) + b2 == batch + received(events));
                }
            },
            WorkerEvent::TimerFired => {
                if b.len() > 0 {
                    lemma_concat_push(sent, b);
                } else {
                    assert(sent + sent2 == sent);
                }
                assert(concat_all(sent + sent2) + b2 == batch + received(events));
            },
        }
        assert forall|i: int| 0 <= i < (sent + sent2).len() implies (#[trigger] (sent
            + sent2)[i]).len() > 0 by {
            if i >= sent.len() {
                assert((sent + sent2)[i] == sent2[i - sent.len()]);
            } else {
                assert((sent + sent2)[i] == sent[i]);
            }
        }
    }
}

} // verus!
