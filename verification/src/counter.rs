use vstd::prelude::*;

verus! {

/// The identifier allocator of one record stream. It hands out 1, 2, 3, ...
/// and counts what it handed out.
#[derive(Clone, Copy, Debug, PartialEq, Eq)]
pub struct Counter {
    next_id: u64,
    total_count: u64,
}

impl Counter {
    /// How many identifiers were handed out so far.
    pub closed spec fn issued(&self) -> nat {
        self.total_count as nat
    }

    /// The identifier that the next allocation hands out is one more than the
    /// number handed out so far.
    pub closed spec fn wf(&self) -> bool {
        self.next_id == self.total_count + 1
    }

    /// A counter that has handed out nothing: the first identifier will be 1.
    pub fn new() -> (c: Counter)
        ensures
            c.wf(),
            c.issued() == 0,
    {
        Counter { next_id: 1, total_count: 0 }
    }

    /// The counter that was stored as `next_id` and `total_count`, if the two
    /// agree with each other.
    pub fn restore(next_id: u64, total_count: u64) -> (c: Option<Counter>)
        ensures
            c is Some <==> next_id == total_count + 1,
            c matches Some(k) ==> k.wf() && k.issued() == total_count,
    {
        if total_count < u64::MAX && next_id == total_count + 1 {
            Some(Counter { next_id, total_count })
        } else {
            None
        }
    }

    /// The identifier that the next allocation will hand out.
    pub fn next_id(&self) -> (id: u64)
        requires
            self.wf(),
        ensures
            id == self.issued() + 1,
    {
        self.next_id
    }

    /// How many identifiers were handed out so far.
    pub fn total_count(&self) -> (n: u64)
        ensures
            n == self.issued(),
    {
        self.total_count
    }

    /// Hands out the next identifier. The k-th allocation of a new counter
    /// hands out k, so no identifier is handed out twice and none is skipped.
    pub fn allocate(&mut self) -> (id: u64)
        requires
            old(self).wf(),
            old(self).issued() + 1 < u64::MAX,
        ensures
            final(self).wf(),
            id == old(self).issued() + 1,
            final(self).issued() == old(self).issued() + 1,
    {
        let id = self.next_id;
        self.next_id = id + 1;
        self.total_count = self.total_count + 1;
        id
    }
}

} // verus!
