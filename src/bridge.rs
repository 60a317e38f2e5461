//! Address queries that arrive before the address is known wait here, in the
//! order they came, up to a fixed number.
use vstd::prelude::*;

verus! {

/// How the node dealt with an address query.
#[derive(Clone, Debug, PartialEq, Eq)]
pub enum RequestOutcome {
    /// The address was known and is the answer.
    Answered(String),
    /// The query waits for the first address.
    Queued,
    /// The queue of waiting queries is full; the caller should retry later.
    Backpressure,
}

/// Why an address query got no address.
#[derive(Clone, Copy, Debug, PartialEq, Eq)]
pub enum QueryError {
    /// Too many queries were waiting; the caller may ask again later.
    Backpressure,
    /// The node stopped listening before it discovered an address.
    NoAddress,
}

/// The queries waiting for the first address, by the caller's identifier.
pub struct ReplyBridge {
    pending: Vec<u64>,
    capacity: usize,
}

impl ReplyBridge {
    /// The identifiers of the waiting queries, oldest first.
    pub closed spec fn pending(&self) -> Seq<u64> {
        self.pending@
    }

    /// How many queries may wait at once.
    pub closed spec fn capacity(&self) -> nat {
        self.capacity as nat
    }

    pub open spec fn wf(&self) -> bool {
        self.pending().len() <= self.capacity()
    }

    /// An empty queue that holds at most `capacity` queries.
    pub fn new(capacity: usize) -> (r: ReplyBridge)
        ensures
            r.wf(),
            r.pending() == Seq::<u64>::empty(),
            r.capacity() == capacity,
    {
        ReplyBridge { pending: Vec::new(), capacity }
    }

    /// How many queries wait.
    pub fn len(&self) -> (r: usize)
        ensures
            r == self.pending().len(),
    {
        self.pending.len()
    }

    /// Queues query `id` if there is room; tells whether there was.
    pub fn enqueue(&mut self, id: u64) -> (r: bool)
        requires
            old(self).wf(),
        ensures
            final(self).wf(),
            final(self).capacity() == old(self).capacity(),
            r == (old(self).pending().len() < old(self).capacity()),
            final(self).pending() == (if r { old(self).pending().push(id) } else { old(self).pending() }),
    {
        if self.pending.len() < self.capacity {
            self.pending.push(id);
            true
        } else {
            false
        }
    }

    /// Hands out every waiting query, oldest first, and empties the queue.
    pub fn drain(&mut self) -> (r: Vec<u64>)
        requires
            old(self).wf(),
        ensures
            final(self).wf(),
            final(self).capacity() == old(self).capacity(),
            r@ == old(self).pending(),
            final(self).pending() == Seq::<u64>::empty(),
    {
        let mut r: Vec<u64> = Vec::new();
        r.append(&mut self.pending);
        r
    }
}

} // verus!
