//! A fixed-capacity container of records with stable insertion handles: the
//! foundation of the dynamic service registry. An insert returns a handle that
//! stays valid until the record is removed through it; removal through a stale
//! handle is a no-op. The capacity is fixed when the container is created.
//!
//! The container is modelled as a sequence of optional records, one per slot;
//! a handle is the index of the slot that an insert filled.

use vstd::prelude::*;

verus! {

/// A stable handle to a record of a [`FixedSizeContainer`].
#[derive(Clone, Copy, Debug, PartialEq, Eq, Hash, Structural)]
pub struct ContainerHandle {
    index: usize,
}

impl ContainerHandle {
    /// The slot index this handle refers to.
    pub closed spec fn index(&self) -> int {
        self.index as int
    }

    /// Returns the slot index this handle refers to.
    pub fn value(&self) -> (r: usize)
        ensures
            r as int == self.index(),
    {
        self.index
    }

    pub(crate) fn from_index(index: usize) -> (r: ContainerHandle)
        ensures
            r.index() == index as int,
    {
        ContainerHandle { index }
    }
}

/// How many slots of `s` hold a record.
pub open spec fn occupied_count<T>(s: Seq<Option<T>>) -> nat
    decreases s.len(),
{
    if s.len() == 0 {
        0
    } else {
        occupied_count(s.drop_last()) + (if s.last() is Some {
            1nat
        } else {
            0nat
        })
    }
}

/// The records of `s` in slot order.
pub open spec fn occupied_seq<T>(s: Seq<Option<T>>) -> Seq<T>
    decreases s.len(),
{
    if s.len() == 0 {
        Seq::empty()
    } else {
        occupied_seq(s.drop_last()) + (match s.last() {
            Some(v) => seq![v],
            None => Seq::empty(),
        })
    }
}

/// A container never holds more records than it has slots.
pub proof fn lemma_occupied_count_le_len<T>(s: Seq<Option<T>>)
    ensures
        occupied_count(s) <= s.len(),
    decreases s.len(),
{
    if s.len() > 0 {
        lemma_occupied_count_le_len(s.drop_last());
    }
}

/// A container with an empty slot holds fewer records than it has slots.
pub proof fn lemma_occupied_count_lt_len<T>(s: Seq<Option<T>>, i: int)
    requires
        0 <= i < s.len(),
        s[i] is None,
    ensures
        occupied_count(s) < s.len(),
    decreases s.len(),
{
    if i == s.len() - 1 {
        lemma_occupied_count_le_len(s.drop_last());
    } else {
        lemma_occupied_count_lt_len(s.drop_last(), i);
    }
}

/// A container whose slots are all full holds as many records as slots.
pub proof fn lemma_occupied_count_all_some<T>(s: Seq<Option<T>>)
    requires
        forall|i: int| 0 <= i < s.len() ==> s[i] is Some,
    ensures
        occupied_count(s) == s.len(),
    decreases s.len(),
{
    if s.len() > 0 {
        lemma_occupied_count_all_some(s.drop_last());
    }
}

/// A container whose slots are all empty holds no record.
pub proof fn lemma_occupied_count_all_none<T>(s: Seq<Option<T>>)
    requires
        forall|i: int| 0 <= i < s.len() ==> s[i] is None,
    ensures
        occupied_count(s) == 0,
    decreases s.len(),
{
    if s.len() > 0 {
        lemma_occupied_count_all_none(s.drop_last());
    }
}

/// Overwriting one slot changes the record count by the difference between the
/// new and the old slot state.
pub proof fn lemma_occupied_count_update<T>(s: Seq<Option<T>>, i: int, x: Option<T>)
    requires
        0 <= i < s.len(),
    ensures
        occupied_count(s.update(i, x)) + (if s[i] is Some {
            1nat
        } else {
            0nat
        }) == occupied_count(s) + (if x is Some {
            1nat
        } else {
            0nat
        }),
    decreases s.len(),
{
    let t = s.update(i, x);
    if i == s.len() - 1 {
        assert(t.drop_last() =~= s.drop_last());
    } else {
        assert(t.drop_last() =~= s.drop_last().update(i, x));
        lemma_occupied_count_update(s.drop_last(), i, x);
    }
}

/// A fixed-capacity set of records with stable handles.
pub struct FixedSizeContainer<T> {
    slots: Vec<Option<T>>,
    count: usize,
}

impl<T> View for FixedSizeContainer<T> {
    type V = Seq<Option<T>>;

    closed spec fn view(&self) -> Seq<Option<T>> {
        self.slots@
    }
}

impl<T> FixedSizeContainer<T> {
    /// The internal bookkeeping of the container is sound: the stored record
    /// count matches the number of full slots. Constructors establish it and
    /// every mutating operation preserves it.
    pub closed spec fn inv(&self) -> bool {
        self.count == occupied_count(self.slots@)
    }

    /// Creates an empty container with the given number of slots.
    pub fn new(capacity: usize) -> (c: Self)
        ensures
            c.inv(),
            c@.len() == capacity,
            forall|i: int| 0 <= i < capacity ==> c@[i] is None,
            occupied_count(c@) == 0,
    {
        let mut slots: Vec<Option<T>> = Vec::new();
        let mut i: usize = 0;
        while i < capacity
            invariant
                i <= capacity,
                slots@.len() == i,
                forall|j: int| 0 <= j < i ==> slots@[j] is None,
            decreases capacity - i,
        {
            slots.push(None);
            i = i + 1;
        }
        proof {
            lemma_occupied_count_all_none(slots@);
        }
        FixedSizeContainer { slots, count: 0 }
    }

    /// The number of slots of this container.
    pub fn capacity(&self) -> (r: usize)
        ensures
            r == self@.len(),
    {
        self.slots.len()
    }

    /// Returns how many records the container currently holds.
    pub fn len(&self) -> (r: usize)
        requires
            self.inv(),
        ensures
            r == occupied_count(self@),
    {
        self.count
    }

    /// Inserts a record into a free slot and returns a stable handle to it, or
    /// `None` when every slot is taken.
    pub fn add(&mut self, value: T) -> (r: Option<ContainerHandle>)
        requires
            old(self).inv(),
        ensures
            final(self).inv(),
            final(self)@.len() == old(self)@.len(),
            match r {
                Some(h) => {
                    &&& 0 <= h.index() < old(self)@.len()
                    &&& old(self)@[h.index()] is None
                    &&& final(self)@ == old(self)@.update(h.index(), Some(value))
                    &&& occupied_count(final(self)@) == occupied_count(old(self)@) + 1
                },
                None => {
                    &&& occupied_count(old(self)@) == old(self)@.len()
                    &&& final(self)@ == old(self)@
                },
            },
            r is Some <==> occupied_count(old(self)@) < old(self)@.len(),
    {
        let n = self.slots.len();
        let mut i: usize = 0;
        while i < n
            invariant
                i <= n,
                n == self.slots@.len(),
                self.slots@ == old(self)@,
                self.count == old(self).count,
                self.count == occupied_count(self.slots@),
                forall|j: int| 0 <= j < i ==> self.slots@[j] is Some,
            decreases n - i,
        {
            if self.slots[i].is_none() {
                proof {
                    lemma_occupied_count_lt_len(self.slots@, i as int);
                    lemma_occupied_count_update(self.slots@, i as int, Some(value));
                }
                self.slots[i] = Some(value);
                self.count = self.count + 1;
                return Some(ContainerHandle { index: i });
            }
            i = i + 1;
        }
        proof {
            lemma_occupied_count_all_some(self.slots@);
        }
        None
    }

    /// Releases the record that the handle refers to. A handle whose slot was
    /// already released, or that is out of range, is a no-op: removal is
    /// idempotent. Returns whether a record was released.
    pub fn remove(&mut self, handle: ContainerHandle) -> (removed: bool)
        requires
            old(self).inv(),
        ensures
            final(self).inv(),
            final(self)@.len() == old(self)@.len(),
            removed <==> (0 <= handle.index() < old(self)@.len()
                && old(self)@[handle.index()] is Some),
            removed ==> {
                &&& final(self)@ == old(self)@.update(handle.index(), None)
                &&& occupied_count(final(self)@) + 1 == occupied_count(old(self)@)
            },
            !removed ==> final(self)@ == old(self)@,
    {
        let i = handle.index;
        if i < self.slots.len() {
            if self.slots[i].is_some() {
                proof {
                    lemma_occupied_count_update(self.slots@, i as int, Option::<T>::None);
                }
                self.slots[i] = None;
                self.count = self.count - 1;
                return true;
            }
        }
        false
    }

    /// Returns a reference to the record the handle refers to, or `None` when
    /// the handle's slot is empty or out of range.
    pub fn get(&self, handle: ContainerHandle) -> (r: Option<&T>)
        ensures
            match r {
                Some(v) => {
                    &&& 0 <= handle.index() < self@.len()
                    &&& self@[handle.index()] is Some
                    &&& *v == self@[handle.index()]->0
                },
                None => !(0 <= handle.index() < self@.len() && self@[handle.index()] is Some),
            },
    {
        let i = handle.index;
        if i < self.slots.len() {
            match &self.slots[i] {
                Some(v) => Some(v),
                None => None,
            }
        } else {
            None
        }
    }

    /// Returns a reference to the record in the given slot, or `None` when the
    /// slot is empty or out of range.
    pub fn get_at(&self, index: usize) -> (r: Option<&T>)
        ensures
            match r {
                Some(v) => {
                    &&& (index as int) < self@.len()
                    &&& self@[index as int] is Some
                    &&& *v == self@[index as int]->0
                },
                None => !((index as int) < self@.len() && self@[index as int] is Some),
            },
    {
        self.get(ContainerHandle { index })
    }
}

impl<T: Copy> FixedSizeContainer<T> {
    /// Returns a snapshot of the records in slot order.
    pub fn contents(&self) -> (r: Vec<T>)
        ensures
            r@ == occupied_seq(self@),
    {
        let n = self.slots.len();
        let mut out: Vec<T> = Vec::new();
        let mut i: usize = 0;
        while i < n
            invariant
                i <= n,
                n == self.slots@.len(),
                out@ == occupied_seq(self.slots@.take(i as int)),
            decreases n - i,
        {
            let ghost pre = self.slots@.take(i as int);
            assert(self.slots@.take(i as int + 1).drop_last() =~= pre);
            match &self.slots[i] {
                Some(v) => {
                    out.push(*v);
                    assert(out@ =~= occupied_seq(self.slots@.take(i as int + 1)));
                },
                None => {
                    assert(out@ =~= occupied_seq(self.slots@.take(i as int + 1)));
                },
            }
            i = i + 1;
        }
        assert(self.slots@.take(n as int) =~= self.slots@);
        out
    }
}

/// One abstract mutation of a container: filling an empty slot with a record,
/// or clearing a full one.
pub enum ContainerOp<T> {
    /// Fill the slot at the index with the record.
    Add(usize, T),
    /// Clear the slot at the index.
    Remove(usize),
}

/// Whether the operation touches a slot in the state it expects: an add needs
/// an empty slot, a remove needs a full one.
pub open spec fn container_op_valid<T>(s: Seq<Option<T>>, op: ContainerOp<T>) -> bool {
    match op {
        ContainerOp::Add(i, _) => 0 <= i < s.len() && s[i as int] is None,
        ContainerOp::Remove(i) => 0 <= i < s.len() && s[i as int] is Some,
    }
}

/// The container state after one operation.
pub open spec fn apply_container_op<T>(s: Seq<Option<T>>, op: ContainerOp<T>) -> Seq<Option<T>> {
    match op {
        ContainerOp::Add(i, v) => s.update(i as int, Some(v)),
        ContainerOp::Remove(i) => s.update(i as int, None),
    }
}

/// The container state after a sequence of operations, applied left to right.
pub open spec fn apply_container_ops<T>(s: Seq<Option<T>>, ops: Seq<ContainerOp<T>>) -> Seq<
    Option<T>,
>
    decreases ops.len(),
{
    if ops.len() == 0 {
        s
    } else {
        apply_container_ops(apply_container_op(s, ops[0]), ops.drop_first())
    }
}

/// Whether each operation of the sequence is valid in the state it runs in.
pub open spec fn container_ops_valid<T>(s: Seq<Option<T>>, ops: Seq<ContainerOp<T>>) -> bool
    decreases ops.len(),
{
    ops.len() == 0 || (container_op_valid(s, ops[0]) && container_ops_valid(
        apply_container_op(s, ops[0]),
        ops.drop_first(),
    ))
}

/// How many operations of the sequence are adds.
pub open spec fn container_add_count<T>(ops: Seq<ContainerOp<T>>) -> nat
    decreases ops.len(),
{
    if ops.len() == 0 {
        0
    } else {
        (if ops[0] is Add {
            1nat
        } else {
            0nat
        }) + container_add_count(ops.drop_first())
    }
}

/// How many operations of the sequence are removes.
pub open spec fn container_remove_count<T>(ops: Seq<ContainerOp<T>>) -> nat
    decreases ops.len(),
{
    if ops.len() == 0 {
        0
    } else {
        (if ops[0] is Remove {
            1nat
        } else {
            0nat
        }) + container_remove_count(ops.drop_first())
    }
}

/// After any valid sequence of operations with `N` successful adds and `M`
/// removes of live records, the container holds exactly `N - M` records more
/// than before. In particular, a registry that starts empty and performs `N`
/// inserts and `M ≤ N` removes reports a length of `N - M`.
pub proof fn lemma_occupied_count_after_ops<T>(s: Seq<Option<T>>, ops: Seq<ContainerOp<T>>)
    requires
        container_ops_valid(s, ops),
    ensures
        occupied_count(apply_container_ops(s, ops)) + container_remove_count(ops)
            == occupied_count(s) + container_add_count(ops),
    decreases ops.len(),
{
    if ops.len() > 0 {
        let s1 = apply_container_op(s, ops[0]);
        match ops[0] {
            ContainerOp::Add(i, v) => {
                lemma_occupied_count_update(s, i as int, Some(v));
            },
            ContainerOp::Remove(i) => {
                lemma_occupied_count_update(s, i as int, Option::<T>::None);
            },
        }
        lemma_occupied_count_after_ops(s1, ops.drop_first());
    }
}

} // verus!
