//! A batch of messages that the publisher sends in one request.
use crate::message::{attributes_len, message_size, text_len, Message};
use crate::options::BatchingOptions;
use vstd::prelude::*;

verus! {

/// One message that waits in a batch, with the ticket (for instance the
/// sender half of a channel) that resolves its publish handle.
pub struct BundledMessage<T> {
    pub msg: Message,
    pub tx: T,
}

/// How much a message adds to a batch's size: its estimated size, cast to `u32`.
pub open spec fn counted_size(m: Message) -> u32 {
    message_size(m) as u32
}

/// Sum of the counted sizes of the messages of a batch.
pub open spec fn batch_bytes<T>(msgs: Seq<BundledMessage<T>>) -> int
    decreases msgs.len(),
{
    if msgs.len() == 0 {
        0
    } else {
        batch_bytes(msgs.drop_last()) + counted_size(msgs.last().msg)
    }
}

/// A batch of messages, with the size estimate that decides when it is full.
pub struct Batch<T> {
    messages: Vec<BundledMessage<T>>,
    initial_size: u32,
    messages_byte_size: u32,
    batching_options: BatchingOptions,
}

proof fn lemma_attributes_len_nonneg(attrs: Seq<(String, String)>)
    ensures
        attributes_len(attrs) >= 0,
    decreases attrs.len(),
{
    if attrs.len() > 0 {
        lemma_attributes_len_nonneg(attrs.drop_last());
    }
}

proof fn lemma_attributes_len_prefix(attrs: Seq<(String, String)>, i: int)
    requires
        0 <= i <= attrs.len(),
    ensures
        attributes_len(attrs.take(i)) <= attributes_len(attrs),
    decreases attrs.len(),
{
    if i < attrs.len() {
        let init = attrs.drop_last();
        assert(attrs.take(i) == init.take(i));
        lemma_attributes_len_prefix(init, i);
    } else {
        assert(attrs.take(i) == attrs);
    }
}

impl<T> Batch<T> {
    /// The messages in the batch, oldest first.
    pub closed spec fn messages(&self) -> Seq<BundledMessage<T>> {
        self.messages@
    }

    /// The size that an empty batch starts from (the topic name's length).
    pub closed spec fn initial_size(&self) -> u32 {
        self.initial_size
    }

    /// The size estimate of the batch.
    pub closed spec fn byte_size(&self) -> u32 {
        self.messages_byte_size
    }

    /// The thresholds that decide when the batch is full.
    pub closed spec fn options(&self) -> BatchingOptions {
        self.batching_options
    }

    /// The size estimate is the initial size plus the counted size of each message.
    pub open spec fn wf(&self) -> bool {
        self.byte_size() as int == self.initial_size() + batch_bytes(self.messages())
    }

    /// An empty batch whose size starts at `initial_size`.
    pub fn new(initial_size: u32, batching_options: BatchingOptions) -> (batch: Self)
        ensures
            batch.wf(),
            batch.messages().len() == 0,
            batch.initial_size() == initial_size,
            batch.byte_size() == initial_size,
            batch.options() == batching_options,
    {
        Batch { messages: Vec::new(), initial_size, messages_byte_size: initial_size, batching_options }
    }

    /// True when the batch holds no message.
    pub fn is_empty(&self) -> (empty: bool)
        ensures
            empty == (self.messages().len() == 0),
    {
        self.messages.len() == 0
    }

    /// Number of messages in the batch.
    pub fn len(&self) -> (n: usize)
        ensures
            n == self.messages().len(),
    {
        self.messages.len()
    }

    /// The size estimate of the batch.
    pub fn size(&self) -> (s: u32)
        ensures
            s == self.byte_size(),
    {
        self.messages_byte_size
    }

    /// The estimated size of a message: this is only an estimate and not the wire length.
    pub fn message_size(msg: &Message) -> (n: usize)
        requires
            message_size(*msg) <= usize::MAX,
        ensures
            n == message_size(*msg),
    {
        let ghost attrs = msg.attributes@;
        proof {
            lemma_attributes_len_nonneg(attrs);
        }
        let mut acc: usize = msg.data.len() + msg.ordering_key.as_str().len();
        assert(acc == msg.data@.len() + text_len(msg.ordering_key));
        let mut i: usize = 0;
        while i < msg.attributes.len()
            invariant
                i <= msg.attributes.len(),
                attrs == msg.attributes@,
                message_size(*msg) <= usize::MAX,
                acc == msg.data@.len() + text_len(msg.ordering_key) + attributes_len(
                    attrs.take(i as int),
                ),
            decreases msg.attributes.len() - i,
        {
            proof {
                assert(attrs.take(i as int + 1).drop_last() == attrs.take(i as int));
                lemma_attributes_len_prefix(attrs, i as int + 1);
                lemma_attributes_len_nonneg(attrs.take(i as int));
            }
            let k = msg.attributes[i].0.as_str().len();
            let v = msg.attributes[i].1.as_str().len();
            acc = acc + k + v;
            i = i + 1;
        }
        assert(attrs.take(attrs.len() as int) == attrs);
        acc
    }

    /// Adds a message at the end of the batch and grows the size estimate.
    pub fn push(&mut self, msg: BundledMessage<T>)
        requires
            old(self).wf(),
            message_size(msg.msg) <= usize::MAX,
            old(self).byte_size() + counted_size(msg.msg) <= u32::MAX,
        ensures
            final(self).wf(),
            final(self).messages() == old(self).messages().push(msg),
            final(self).byte_size() == old(self).byte_size() + counted_size(msg.msg),
            final(self).initial_size() == old(self).initial_size(),
            final(self).options() == old(self).options(),
    {
        let n = Self::message_size(&msg.msg);
        self.messages_byte_size = self.messages_byte_size + n as u32;
        self.messages.push(msg);
        assert(self.messages@.drop_last() == old(self).messages@);
    }

    /// True when the batch holds at least the message count threshold, or its
    /// size reached the byte threshold.
    pub fn at_threshold(&mut self) -> (full: bool)
        ensures
            *final(self) == *old(self),
            full == ((old(self).messages().len() as u32) >= old(self).options().message_count_threshold
                || old(self).byte_size() >= old(self).options().byte_threshold),
    {
        self.len() as u32 >= self.batching_options.message_count_threshold
            || self.size() >= self.batching_options.byte_threshold
    }

    /// True when adding the next message keeps the size within the byte threshold.
    pub fn can_add(&mut self, next: &BundledMessage<T>) -> (fits: bool)
        requires
            message_size(next.msg) <= usize::MAX,
            old(self).byte_size() + counted_size(next.msg) <= u32::MAX,
        ensures
            *final(self) == *old(self),
            fits == (old(self).byte_size() + counted_size(next.msg)
                <= old(self).options().byte_threshold),
    {
        self.size() + Self::message_size(&next.msg) as u32 <= self.batching_options.byte_threshold
    }

    /// Drains the batch into a new batch that is ready to send, leaving this
    /// one empty with its size back at the initial size.
    pub fn flush(&mut self) -> (batch_to_send: Self)
        requires
            old(self).wf(),
        ensures
            batch_to_send.wf(),
            final(self).wf(),
            batch_to_send.messages() == old(self).messages(),
            batch_to_send.byte_size() == old(self).byte_size(),
            batch_to_send.initial_size() == old(self).initial_size(),
            batch_to_send.options() == old(self).options(),
            final(self).messages().len() == 0,
            final(self).byte_size() == old(self).initial_size(),
            final(self).initial_size() == old(self).initial_size(),
            final(self).options() == old(self).options(),
    {
        let mut messages: Vec<BundledMessage<T>> = Vec::new();
        std::mem::swap(&mut messages, &mut self.messages);
        let batch_to_send = Batch {
            initial_size: self.initial_size,
            messages,
            messages_byte_size: self.messages_byte_size,
            batching_options: self.batching_options,
        };
        self.messages_byte_size = self.initial_size;
        batch_to_send
    }

    /// Takes the batch apart into its messages.
    pub fn into_messages(self) -> (msgs: Vec<BundledMessage<T>>)
        ensures
            msgs@ == self.messages(),
    {
        self.messages
    }
}

/// How the tickets of a sent batch are resolved by the service's reply.
pub struct Resolution<T> {
    /// Tickets paired with the message id that the service assigned.
    pub delivered: Vec<(T, String)>,
    /// Tickets that receive the request's error.
    pub failed: Vec<T>,
    /// Tickets for which the reply holds no message id; they are dropped unanswered.
    pub unanswered: Vec<T>,
}

/// The tickets of a resolution, in the order of the batch.
pub open spec fn resolved_tickets<T>(r: Resolution<T>) -> Seq<T> {
    r.delivered@.map_values(|p: (T, String)| p.0) + r.failed@ + r.unanswered@
}

/// Resolves the tickets of a sent batch: on an error every ticket fails; on a
/// reply the i-th ticket receives the i-th message id, and tickets beyond the
/// ids of the reply stay unanswered.
pub fn resolve_response<T>(txs: Vec<T>, message_ids: Option<Vec<String>>) -> (r: Resolution<T>)
    ensures
        resolved_tickets(r) == txs@,
        match message_ids {
            None => r.delivered@.len() == 0 && r.failed@ == txs@ && r.unanswered@.len() == 0,
            Some(ids) => {
                let k = if txs@.len() <= ids@.len() { txs@.len() } else { ids@.len() };
                &&& r.failed@.len() == 0
                &&& r.delivered@.len() == k
                &&& forall|i: int|
                    0 <= i < k ==> (#[trigger] r.delivered@[i]).0 == txs@[i] && r.delivered@[i].1
                        == ids@[i]
                &&& r.unanswered@ == txs@.subrange(k as int, txs@.len() as int)
            },
        },
{
    match message_ids {
        None => {
            let r = Resolution { delivered: Vec::new(), failed: txs, unanswered: Vec::new() };
            assert(r.delivered@.map_values(|p: (T, String)| p.0) =~= Seq::<T>::empty());
            assert(resolved_tickets(r) =~= txs@);
            r
        },
        Some(ids) => {
            let ghost all_txs = txs@;
            let ghost all_ids = ids@;
            let mut txs = txs;
            let mut ids = ids;
            let k = if txs.len() <= ids.len() { txs.len() } else { ids.len() };
            let unanswered = txs.split_off(k);
            ids.truncate(k);
            // Pair the tickets with the ids from the back, then restore the order.
            let mut reversed: Vec<(T, String)> = Vec::new();
            while txs.len() > 0
                invariant
                    txs.len() == ids.len(),
                    txs.len() + reversed.len() == k,
                    txs@ == all_txs.take(txs.len() as int),
                    ids@ == all_ids.take(ids.len() as int),
                    k <= all_txs.len(),
                    k <= all_ids.len(),
                    forall|j: int|
                        0 <= j < reversed.len() ==> (#[trigger] reversed@[j]).0 == all_txs[k - 1 - j]
                            && reversed@[j].1 == all_ids[k - 1 - j],
                decreases txs.len(),
            {
                let t = txs.pop().unwrap();
                let id = ids.pop().unwrap();
                reversed.push((t, id));
            }
            let mut delivered: Vec<(T, String)> = Vec::new();
            while reversed.len() > 0
                invariant
                    reversed.len() + delivered.len() == k,
                    forall|j: int|
                        0 <= j < reversed.len() ==> (#[trigger] reversed@[j]).0 == all_txs[k - 1 - j]
                            && reversed@[j].1 == all_ids[k - 1 - j],
                    forall|j: int|
                        0 <= j < delivered.len() ==> (#[trigger] delivered@[j]).0 == all_txs[j]
                            && delivered@[j].1 == all_ids[j],
                    k <= all_txs.len(),
                    k <= all_ids.len(),
                decreases reversed.len(),
            {
                let p = reversed.pop().unwrap();
                delivered.push(p);
            }
            let r = Resolution { delivered, failed: Vec::new(), unanswered };
            assert(r.delivered@.map_values(|p: (T, String)| p.0) + r.failed@ =~= all_txs.take(
                k as int,
            ));
            assert(resolved_tickets(r) =~= all_txs);
            r
        },
    }
}

} // verus!
