use vstd::prelude::*;

verus! {

/// The byte ceiling of a connection's outbound buffer.
pub const MAX_WRITE_BUFFER: u64 = 20_000_000;

/// The total of a sequence of sizes.
pub open spec fn total(sizes: Seq<u64>) -> int
    decreases sizes.len(),
{
    if sizes.len() == 0 {
        0
    } else {
        total(sizes.drop_last()) + sizes.last() as int
    }
}

proof fn lemma_total_push(sizes: Seq<u64>, s: u64)
    ensures
        total(sizes.push(s)) == total(sizes) + s,
{
    assert(sizes.push(s).drop_last() =~= sizes);
}

proof fn lemma_total_drop_first(sizes: Seq<u64>)
    requires
        sizes.len() > 0,
    ensures
        total(sizes) == sizes[0] + total(sizes.subrange(1, sizes.len() as int)),
    decreases sizes.len(),
{
    let rest = sizes.subrange(1, sizes.len() as int);
    if sizes.len() > 1 {
        lemma_total_drop_first(sizes.drop_last());
        assert(sizes.drop_last().subrange(1, sizes.len() - 1) =~= rest.drop_last());
        assert(rest.last() == sizes.last());
    } else {
        assert(rest =~= Seq::<u64>::empty());
        assert(sizes.drop_last() =~= Seq::<u64>::empty());
    }
}

proof fn lemma_total_nonneg(sizes: Seq<u64>)
    ensures
        total(sizes) >= 0,
    decreases sizes.len(),
{
    if sizes.len() > 0 {
        lemma_total_nonneg(sizes.drop_last());
    }
}

/// A first-in first-out queue whose admission is bounded by the total byte
/// size of the items it holds, not by their number.
pub struct ByteBoundedQueue<T> {
    items: Vec<T>,
    sizes: Vec<u64>,
    used: u64,
    capacity: u64,
}

impl<T> ByteBoundedQueue<T> {
    /// The queued items, oldest first.
    pub closed spec fn items(&self) -> Seq<T> {
        self.items@
    }

    /// The byte size of each queued item, oldest first.
    pub closed spec fn sizes(&self) -> Seq<u64> {
        self.sizes@
    }

    pub closed spec fn capacity(&self) -> u64 {
        self.capacity
    }

    pub closed spec fn wf(&self) -> bool {
        &&& self.items@.len() == self.sizes@.len()
        &&& self.used as int == total(self.sizes@)
        &&& self.used <= self.capacity
    }

    /// The byte total of the queued items.
    pub open spec fn queued_bytes(&self) -> int {
        total(self.sizes())
    }

    /// An empty queue that admits at most `capacity` bytes at a time.
    pub fn new(capacity: u64) -> (r: Self)
        ensures
            r.wf(),
            r.items() == Seq::<T>::empty(),
            r.sizes() == Seq::<u64>::empty(),
            r.capacity() == capacity,
    {
        ByteBoundedQueue { items: Vec::new(), sizes: Vec::new(), used: 0, capacity }
    }

    pub fn len(&self) -> (r: usize)
        requires
            self.wf(),
        ensures
            r == self.items().len(),
    {
        self.items.len()
    }

    /// The byte total of the queued items.
    pub fn queued(&self) -> (r: u64)
        requires
            self.wf(),
        ensures
            r == self.queued_bytes(),
    {
        self.used
    }

    /// Appends `item`, of `size` bytes, if the total stays within the
    /// capacity; otherwise hands the item back and leaves the queue as it was.
    pub fn try_push(&mut self, item: T, size: u64) -> (r: Result<(), T>)
        requires
            old(self).wf(),
        ensures
            final(self).wf(),
            final(self).capacity() == old(self).capacity(),
            old(self).queued_bytes() + size <= old(self).capacity() ==> {
                &&& r is Ok
                &&& final(self).items() == old(self).items().push(item)
                &&& final(self).sizes() == old(self).sizes().push(size)
            },
            old(self).queued_bytes() + size > old(self).capacity() ==> {
                &&& r == Err::<(), T>(item)
                &&& final(self).items() == old(self).items()
                &&& final(self).sizes() == old(self).sizes()
            },
    {
        if size > self.capacity - self.used {
            return Err(item);
        }
        proof {
            lemma_total_push(self.sizes@, size);
        }
        self.items.push(item);
        self.sizes.push(size);
        self.used = self.used + size;
        Ok(())
    }

    /// Removes and returns the oldest item, if there is one.
    pub fn pop(&mut self) -> (r: Option<T>)
        requires
            old(self).wf(),
        ensures
            final(self).wf(),
            final(self).capacity() == old(self).capacity(),
            old(self).items().len() == 0 ==> r is None && final(self).items() == old(self).items()
                && final(self).sizes() == old(self).sizes(),
            old(self).items().len() > 0 ==> {
                &&& r == Some(old(self).items()[0])
                &&& final(self).items() == old(self).items().subrange(1, old(self).items().len() as int)
                &&& final(self).sizes() == old(self).sizes().subrange(1, old(self).sizes().len() as int)
            },
    {
        if self.items.len() == 0 {
            return None;
        }
        proof {
            lemma_total_drop_first(self.sizes@);
            lemma_total_nonneg(self.sizes@.subrange(1, self.sizes@.len() as int));
        }
        let item = self.items.remove(0);
        let size = self.sizes.remove(0);
        self.used = self.used - size;
        Some(item)
    }
}

/// The bytes held by a well-formed queue never exceed its capacity.
pub proof fn lemma_within_capacity<T>(q: &ByteBoundedQueue<T>)
    requires
        q.wf(),
    ensures
        q.queued_bytes() <= q.capacity(),
{
}

/// An item larger than the capacity is never admitted, whatever the queue
/// holds.
pub proof fn lemma_oversized_refused<T>(q: &ByteBoundedQueue<T>, size: u64)
    requires
        q.wf(),
        size > q.capacity(),
    ensures
        q.queued_bytes() + size > q.capacity(),
{
    lemma_total_nonneg(q.sizes());
}

} // verus!
