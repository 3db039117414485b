//! Request accounting of the mock Pub/Sub server used by the hedging benchmark.
use vstd::prelude::*;

verus! {

/// Counts of publish requests served. The counters wrap around on overflow.
#[derive(Debug, Default, Clone)]
pub struct MockServerStats {
    pub total_publish_requests: u64,
    pub hedged_publish_requests: u64,
}

impl MockServerStats {
    /// Counts one publish request; a hedged one (it carries the client telemetry
    /// header) also counts as hedged.
    pub fn record_publish(&mut self, hedged: bool)
        ensures
            final(self).total_publish_requests == (old(self).total_publish_requests + 1) % 0x1_0000_0000_0000_0000,
            final(self).hedged_publish_requests == if hedged {
                (old(self).hedged_publish_requests + 1) % 0x1_0000_0000_0000_0000
            } else {
                old(self).hedged_publish_requests as int
            },
    {
        self.total_publish_requests = self.total_publish_requests.wrapping_add(1);
        if hedged {
            self.hedged_publish_requests = self.hedged_publish_requests.wrapping_add(1);
        }
    }
}

/// Assigns `count` consecutive message ids, starting at `next_id`, and
/// advances `next_id` past them; ids wrap around on overflow.
pub fn assign_message_ids(next_id: &mut u64, count: usize) -> (ids: Vec<u64>)
    ensures
        ids@.len() == count,
        forall|i: int| 0 <= i < count ==> #[trigger] ids@[i] == (old(next_id) + i) % 0x1_0000_0000_0000_0000,
        *final(next_id) == (old(next_id) + count) % 0x1_0000_0000_0000_0000,
{
    let mut ids: Vec<u64> = Vec::new();
    let mut i: usize = 0;
    while i < count
        invariant
            i <= count,
            ids@.len() == i,
            forall|j: int| 0 <= j < i ==> #[trigger] ids@[j] == (old(next_id) + j) % 0x1_0000_0000_0000_0000,
            *next_id == (old(next_id) + i) % 0x1_0000_0000_0000_0000,
        decreases count - i,
    {
        ids.push(*next_id);
        *next_id = next_id.wrapping_add(1);
        i = i + 1;
    }
    ids
}

} // verus!
