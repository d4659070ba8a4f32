//! The data segment of a publisher: a pool of reference-counted payload
//! slots. A slot is acquired for a loan with a reference count of one,
//! retained once per subscriber queue that holds it, and pushed back onto the
//! free list when its count drops to zero. A dynamic segment may grow on
//! demand up to a fixed total capacity; a static segment is created at its
//! total capacity and never grows.
//!
//! Besides the reference count, each slot carries the payload it stores and a
//! count of the read borrows that subscribers currently hold on it.

use vstd::prelude::*;

verus! {

/// How a publisher's payload arena is laid out.
#[derive(Clone, Copy, Debug, PartialEq, Eq, Structural)]
pub enum DataSegmentType {
    /// One arena, pre-sized at creation.
    Static,
    /// Up to a fixed number of arenas, mapped on demand.
    Dynamic,
}

/// Whether the sequence holds no duplicate values.
pub open spec fn indices_distinct(s: Seq<usize>) -> bool {
    forall|a: int, b: int| 0 <= a < b < s.len() ==> s[a] != s[b]
}

/// Whether the sequence contains the value `i`.
pub open spec fn index_in(s: Seq<usize>, i: int) -> bool {
    exists|k: int| 0 <= k < s.len() && s[k] as int == i
}

/// A pool of reference-counted payload slots.
pub struct DataSegment {
    refcounts: Vec<u64>,
    borrows: Vec<u64>,
    payloads: Vec<Vec<u64>>,
    free: Vec<usize>,
    total_capacity: usize,
}

impl DataSegment {
    /// How many slots the segment currently has.
    pub closed spec fn num_slots(&self) -> int {
        self.refcounts@.len() as int
    }

    /// How many slots the segment may grow to at most.
    pub closed spec fn capacity(&self) -> int {
        self.total_capacity as int
    }

    /// The reference count of the slot.
    pub closed spec fn refcount(&self, i: int) -> u64 {
        self.refcounts@[i]
    }

    /// How many read borrows subscribers hold on the slot.
    pub closed spec fn borrow_count(&self, i: int) -> u64 {
        self.borrows@[i]
    }

    /// The payload the slot stores.
    pub closed spec fn payload(&self, i: int) -> Seq<u64> {
        self.payloads@[i]@
    }

    /// How many slots are on the free list.
    pub closed spec fn free_len(&self) -> int {
        self.free@.len() as int
    }

    /// The slot bookkeeping is sound: the parallel columns have the same
    /// length, the segment never exceeds its total capacity, and the free
    /// list holds exactly the slots whose reference count is zero, each once.
    pub closed spec fn inv(&self) -> bool {
        &&& self.borrows@.len() == self.refcounts@.len()
        &&& self.payloads@.len() == self.refcounts@.len()
        &&& self.refcounts@.len() <= self.total_capacity
        &&& indices_distinct(self.free@)
        &&& forall|k: int| 0 <= k < self.free@.len() ==> (self.free@[k] as int) < self.num_slots()
        &&& forall|i: int|
            0 <= i < self.num_slots() ==> ((self.refcounts@[i] == 0) <==> index_in(self.free@, i))
    }

    /// Creates a segment with `initial_slots` free slots that may grow to
    /// `total_capacity` slots.
    pub fn new(initial_slots: usize, total_capacity: usize) -> (seg: DataSegment)
        requires
            initial_slots <= total_capacity,
        ensures
            seg.inv(),
            seg.num_slots() == initial_slots,
            seg.capacity() == total_capacity,
            seg.free_len() == initial_slots,
            forall|i: int| 0 <= i < initial_slots ==> seg.refcount(i) == 0,
            forall|i: int| 0 <= i < initial_slots ==> seg.borrow_count(i) == 0,
    {
        let mut refcounts: Vec<u64> = Vec::new();
        let mut borrows: Vec<u64> = Vec::new();
        let mut payloads: Vec<Vec<u64>> = Vec::new();
        let mut free: Vec<usize> = Vec::new();
        let mut i: usize = 0;
        while i < initial_slots
            invariant
                i <= initial_slots,
                refcounts@.len() == i,
                borrows@.len() == i,
                payloads@.len() == i,
                free@.len() == i,
                forall|j: int| 0 <= j < i ==> refcounts@[j] == 0,
                forall|j: int| 0 <= j < i ==> borrows@[j] == 0,
                forall|k: int| 0 <= k < i ==> free@[k] == k,
            decreases initial_slots - i,
        {
            refcounts.push(0);
            borrows.push(0);
            payloads.push(Vec::new());
            free.push(i);
            i = i + 1;
        }
        proof {
            assert forall|j: int| 0 <= j < initial_slots implies index_in(free@, j) by {
                assert(free@[j] as int == j);
            }
        }
        DataSegment { refcounts, borrows, payloads, free, total_capacity }
    }

    /// Takes a slot out of the free list, or grows the segment by one slot,
    /// and returns its index with a reference count of one. Returns `None`
    /// exactly when no slot is free and the segment is at its total capacity.
    pub fn acquire(&mut self) -> (r: Option<usize>)
        requires
            old(self).inv(),
        ensures
            final(self).inv(),
            final(self).capacity() == old(self).capacity(),
            r is None ==> {
                &&& final(self).num_slots() == old(self).num_slots()
                &&& final(self).free_len() == old(self).free_len()
                &&& forall|j: int|
                    0 <= j < old(self).num_slots() ==> {
                        &&& final(self).refcount(j) == old(self).refcount(j)
                        &&& final(self).borrow_count(j) == old(self).borrow_count(j)
                        &&& final(self).payload(j) == old(self).payload(j)
                    }
                &&& old(self).free_len() == 0
                &&& old(self).num_slots() == old(self).capacity()
            },
            r is Some ==> {
                &&& (r->0 as int) < final(self).num_slots()
                &&& final(self).refcount(r->0 as int) == 1
                &&& final(self).free_len() < old(self).free_len() || final(self).free_len() == 0
                &&& forall|j: int|
                    0 <= j < old(self).num_slots() && j != r->0 as int ==> {
                        &&& final(self).refcount(j) == old(self).refcount(j)
                        &&& final(self).borrow_count(j) == old(self).borrow_count(j)
                        &&& final(self).payload(j) == old(self).payload(j)
                    }
            },
            r is Some && old(self).free_len() > 0 ==> {
                &&& final(self).num_slots() == old(self).num_slots()
                &&& (r->0 as int) < old(self).num_slots()
                &&& old(self).refcount(r->0 as int) == 0
                &&& final(self).borrow_count(r->0 as int) == old(self).borrow_count(r->0 as int)
                &&& final(self).payload(r->0 as int) == old(self).payload(r->0 as int)
            },
            r is Some && old(self).free_len() == 0 ==> {
                &&& r->0 as int == old(self).num_slots()
                &&& final(self).num_slots() == old(self).num_slots() + 1
                &&& final(self).borrow_count(r->0 as int) == 0
                &&& final(self).payload(r->0 as int) == Seq::<u64>::empty()
            },
    {
        match self.free.pop() {
            Some(i) => {
                assert(index_in(old(self).free@, i as int)) by {
                    assert(old(self).free@[old(self).free@.len() - 1] == i);
                }
                assert(forall|k: int|
                    0 <= k < self.free@.len() ==> #[trigger] self.free@[k] != i);
                self.refcounts[i] = 1;
                assert forall|j: int| 0 <= j < self.num_slots() implies ((self.refcounts@[j] == 0)
                    <==> index_in(self.free@, j)) by {
                    if j != i as int {
                        assert((old(self).refcounts@[j] == 0) <==> index_in(old(self).free@, j));
                        if index_in(self.free@, j) {
                            let k = choose|k: int|
                                0 <= k < self.free@.len() && self.free@[k] as int == j;
                            assert(old(self).free@[k] as int == j);
                        }
                        if index_in(old(self).free@, j) {
                            let k = choose|k: int|
                                0 <= k < old(self).free@.len() && old(self).free@[k] as int == j;
                            assert(k < old(self).free@.len() - 1 || j == i as int);
                            if k < old(self).free@.len() - 1 {
                                assert(self.free@[k] as int == j);
                            }
                        }
                    }
                }
                Some(i)
            },
            None => {
                if self.refcounts.len() < self.total_capacity {
                    let i = self.refcounts.len();
                    self.refcounts.push(1);
                    self.borrows.push(0);
                    self.payloads.push(Vec::new());
                    Some(i)
                } else {
                    None
                }
            },
        }
    }

    /// Increments the reference count of a live slot: one more subscriber
    /// queue holds it.
    pub fn retain(&mut self, i: usize)
        requires
            old(self).inv(),
            (i as int) < old(self).num_slots(),
            old(self).refcount(i as int) >= 1,
            old(self).refcount(i as int) < u64::MAX,
        ensures
            final(self).inv(),
            final(self).num_slots() == old(self).num_slots(),
            final(self).capacity() == old(self).capacity(),
            final(self).free_len() == old(self).free_len(),
            final(self).refcount(i as int) == old(self).refcount(i as int) + 1,
            final(self).borrow_count(i as int) == old(self).borrow_count(i as int),
            final(self).payload(i as int) == old(self).payload(i as int),
            forall|j: int|
                0 <= j < old(self).num_slots() && j != i as int ==> {
                    &&& final(self).refcount(j) == old(self).refcount(j)
                    &&& final(self).borrow_count(j) == old(self).borrow_count(j)
                    &&& final(self).payload(j) == old(self).payload(j)
                },
    {
        self.refcounts[i] = self.refcounts[i] + 1;
    }

    /// Decrements the reference count of a live slot; a slot whose count
    /// drops to zero goes back onto the free list and may be loaned again.
    pub fn release(&mut self, i: usize)
        requires
            old(self).inv(),
            (i as int) < old(self).num_slots(),
            old(self).refcount(i as int) >= 1,
        ensures
            final(self).inv(),
            final(self).num_slots() == old(self).num_slots(),
            final(self).capacity() == old(self).capacity(),
            final(self).refcount(i as int) == old(self).refcount(i as int) - 1,
            final(self).borrow_count(i as int) == old(self).borrow_count(i as int),
            final(self).payload(i as int) == old(self).payload(i as int),
            old(self).refcount(i as int) == 1 ==> final(self).free_len() == old(self).free_len()
                + 1,
            old(self).refcount(i as int) > 1 ==> final(self).free_len() == old(self).free_len(),
            forall|j: int|
                0 <= j < old(self).num_slots() && j != i as int ==> {
                    &&& final(self).refcount(j) == old(self).refcount(j)
                    &&& final(self).borrow_count(j) == old(self).borrow_count(j)
                    &&& final(self).payload(j) == old(self).payload(j)
                },
    {
        let rc = self.refcounts[i];
        self.refcounts[i] = rc - 1;
        if rc == 1 {
            assert(!index_in(old(self).free@, i as int));
            self.free.push(i);
            assert forall|j: int| 0 <= j < self.num_slots() implies ((self.refcounts@[j] == 0)
                <==> index_in(self.free@, j)) by {
                if j == i as int {
                    assert(self.free@[self.free@.len() - 1] as int == j);
                } else {
                    assert((old(self).refcounts@[j] == 0) <==> index_in(old(self).free@, j));
                    if index_in(old(self).free@, j) {
                        let k = choose|k: int|
                            0 <= k < old(self).free@.len() && old(self).free@[k] as int == j;
                        assert(self.free@[k] as int == j);
                    }
                    if index_in(self.free@, j) {
                        let k = choose|k: int|
                            0 <= k < self.free@.len() && self.free@[k] as int == j;
                        assert(k < old(self).free@.len());
                        assert(old(self).free@[k] as int == j);
                    }
                }
            }
        }
    }

    /// Records one more read borrow of the slot by a subscriber.
    pub fn borrow_inc(&mut self, i: usize)
        requires
            old(self).inv(),
            (i as int) < old(self).num_slots(),
            old(self).borrow_count(i as int) < u64::MAX,
        ensures
            final(self).inv(),
            final(self).num_slots() == old(self).num_slots(),
            final(self).capacity() == old(self).capacity(),
            final(self).free_len() == old(self).free_len(),
            final(self).borrow_count(i as int) == old(self).borrow_count(i as int) + 1,
            final(self).refcount(i as int) == old(self).refcount(i as int),
            final(self).payload(i as int) == old(self).payload(i as int),
            forall|j: int|
                0 <= j < old(self).num_slots() && j != i as int ==> {
                    &&& final(self).refcount(j) == old(self).refcount(j)
                    &&& final(self).borrow_count(j) == old(self).borrow_count(j)
                    &&& final(self).payload(j) == old(self).payload(j)
                },
    {
        self.borrows[i] = self.borrows[i] + 1;
    }

    /// Records that a subscriber gave one read borrow of the slot back.
    pub fn borrow_dec(&mut self, i: usize)
        requires
            old(self).inv(),
            (i as int) < old(self).num_slots(),
            old(self).borrow_count(i as int) >= 1,
        ensures
            final(self).inv(),
            final(self).num_slots() == old(self).num_slots(),
            final(self).capacity() == old(self).capacity(),
            final(self).free_len() == old(self).free_len(),
            final(self).borrow_count(i as int) == old(self).borrow_count(i as int) - 1,
            final(self).refcount(i as int) == old(self).refcount(i as int),
            final(self).payload(i as int) == old(self).payload(i as int),
            forall|j: int|
                0 <= j < old(self).num_slots() && j != i as int ==> {
                    &&& final(self).refcount(j) == old(self).refcount(j)
                    &&& final(self).borrow_count(j) == old(self).borrow_count(j)
                    &&& final(self).payload(j) == old(self).payload(j)
                },
    {
        self.borrows[i] = self.borrows[i] - 1;
    }

    /// Stores a payload in the slot.
    pub fn payload_set(&mut self, i: usize, data: Vec<u64>)
        requires
            old(self).inv(),
            (i as int) < old(self).num_slots(),
        ensures
            final(self).inv(),
            final(self).num_slots() == old(self).num_slots(),
            final(self).capacity() == old(self).capacity(),
            final(self).free_len() == old(self).free_len(),
            final(self).payload(i as int) == data@,
            final(self).refcount(i as int) == old(self).refcount(i as int),
            final(self).borrow_count(i as int) == old(self).borrow_count(i as int),
            forall|j: int|
                0 <= j < old(self).num_slots() && j != i as int ==> {
                    &&& final(self).refcount(j) == old(self).refcount(j)
                    &&& final(self).borrow_count(j) == old(self).borrow_count(j)
                    &&& final(self).payload(j) == old(self).payload(j)
                },
    {
        self.payloads[i] = data;
    }

    /// Returns a reference to the payload the slot stores.
    pub fn payload_ref(&self, i: usize) -> (r: &Vec<u64>)
        requires
            self.inv(),
            (i as int) < self.num_slots(),
        ensures
            r@ == self.payload(i as int),
    {
        &self.payloads[i]
    }

    /// Returns a copy of the payload the slot stores.
    pub fn payload_copy(&self, i: usize) -> (r: Vec<u64>)
        requires
            self.inv(),
            (i as int) < self.num_slots(),
        ensures
            r@ == self.payload(i as int),
    {
        let src = &self.payloads[i];
        let n = src.len();
        let mut out: Vec<u64> = Vec::new();
        let mut k: usize = 0;
        while k < n
            invariant
                k <= n,
                n == src@.len(),
                out@ == src@.take(k as int),
            decreases n - k,
        {
            out.push(src[k]);
            assert(out@ =~= src@.take(k as int + 1));
            k = k + 1;
        }
        assert(src@.take(n as int) =~= src@);
        out
    }

    /// Returns how many slots the segment currently has.
    pub fn slot_count(&self) -> (r: usize)
        ensures
            r as int == self.num_slots(),
    {
        self.refcounts.len()
    }

    /// Returns the reference count of the slot.
    pub fn refcount_of(&self, i: usize) -> (r: u64)
        requires
            (i as int) < self.num_slots(),
        ensures
            r == self.refcount(i as int),
    {
        self.refcounts[i]
    }

    /// Returns how many slots are on the free list.
    pub fn free_count(&self) -> (r: usize)
        ensures
            r as int == self.free_len(),
    {
        self.free.len()
    }

    /// A slot whose reference count is zero is on the free list, so at
    /// least one slot of the segment is free.
    pub proof fn lemma_zero_refcount_slot_is_free(&self, i: int)
        requires
            self.inv(),
            0 <= i < self.num_slots(),
            self.refcount(i) == 0,
        ensures
            self.free_len() >= 1,
    {
        assert(index_in(self.free@, i));
        let k = choose|k: int| 0 <= k < self.free@.len() && self.free@[k] as int == i;
    }

    /// Returns how many slots the segment may grow to at most.
    pub fn capacity_count(&self) -> (r: usize)
        ensures
            r as int == self.capacity(),
    {
        self.total_capacity
    }
}

} // verus!
