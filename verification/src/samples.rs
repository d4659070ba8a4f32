//! The sample tokens of the data plane. A publisher-side sample is a linear
//! token for one loaned payload slot: it is produced by a loan, consumed by
//! `send` or by an explicit drop, and cannot be used twice. A subscriber-side
//! sample is a read borrow of a delivered slot.
//!
//! For foreign bindings, a [`SampleCell`] models the caller-provided storage
//! cell of a publisher-side sample: moving or sending takes the token out of
//! the cell, and a second take observes the empty cell instead of reusing the
//! token.

use vstd::prelude::*;

verus! {

/// One entry of a subscriber queue: a payload slot of a publisher.
#[derive(Clone, Copy, Debug, PartialEq, Eq, Hash, Structural)]
pub struct QueueEntry {
    /// The handle of the publisher that owns the slot.
    pub publisher: usize,
    /// The index of the slot inside the publisher's data segment.
    pub slot: usize,
}

/// A loaned payload slot whose memory may still be garbage: writing the
/// payload, or explicitly assuming it initialised, turns it into a
/// [`SampleMut`]. The token is linear: it is consumed by the operation that
/// ends the loan.
#[derive(Debug)]
pub struct SampleMutUninit {
    /// The handle of the publisher that loaned the slot.
    pub publisher: usize,
    /// The index of the loaned slot.
    pub slot: usize,
    /// How many payload elements the loan covers.
    pub number_of_elements: usize,
}

impl SampleMutUninit {
    /// Declares the payload initialised without writing it: the subscriber
    /// will observe whatever the slot holds. This is the explicit escape
    /// hatch for payloads written through the raw payload pointer.
    pub fn assume_init(self) -> (r: SampleMut)
        ensures
            r.publisher == self.publisher,
            r.slot == self.slot,
            r.number_of_elements == self.number_of_elements,
    {
        SampleMut {
            publisher: self.publisher,
            slot: self.slot,
            number_of_elements: self.number_of_elements,
        }
    }
}

/// A loaned payload slot holding an initialised payload, ready to send. The
/// token is linear: `send` or an explicit drop consumes it.
#[derive(Debug)]
pub struct SampleMut {
    /// The handle of the publisher that loaned the slot.
    pub publisher: usize,
    /// The index of the loaned slot.
    pub slot: usize,
    /// How many payload elements the loan covers.
    pub number_of_elements: usize,
}

/// A received sample: a read borrow of a delivered payload slot. Releasing it
/// gives the slot reference back.
#[derive(Debug)]
pub struct Sample {
    /// The handle of the publisher that sent the sample.
    pub publisher: usize,
    /// The index of the slot the sample borrows.
    pub slot: usize,
    /// The payload the sample carries.
    pub payload: Vec<u64>,
}

impl Sample {
    /// The payload the sample carries.
    pub open spec fn payload_view(&self) -> Seq<u64> {
        self.payload@
    }

    /// Returns the payload the sample carries.
    pub fn payload(&self) -> (r: &Vec<u64>)
        ensures
            r@ == self.payload_view(),
    {
        &self.payload
    }

    pub(crate) fn from_parts(publisher: usize, slot: usize, payload: Vec<u64>) -> (r: Sample)
        ensures
            r.publisher == publisher,
            r.slot == slot,
            r.payload_view() == payload@,
    {
        Sample { publisher, slot, payload }
    }
}

/// The outcome of sending a loaned sample.
#[derive(Debug)]
pub enum SendStatus {
    /// The sample was handed off; the value counts the subscribers whose
    /// queue received it.
    Delivered(usize),
    /// The delivery policy is to block, a subscriber queue is full and safe
    /// overflow is disabled: nothing was delivered and the caller keeps the
    /// sample to send it again once the subscriber caught up.
    WouldBlock(SampleMut),
}

/// The outcome of sending a copied value.
#[derive(Clone, Copy, Debug, PartialEq, Eq, Structural)]
pub enum SendCopyStatus {
    /// The value was handed off; the field counts the subscribers whose
    /// queue received it.
    Delivered(usize),
    /// The delivery policy is to block, a subscriber queue is full and safe
    /// overflow is disabled: nothing was delivered and the caller may send
    /// the value again once the subscriber caught up.
    WouldBlock,
}

/// Whether a sample travels through a cross-process or an in-process service.
/// Both kinds behave identically in the core; the tag is kept so that every
/// operation of a binding can dispatch on it.
#[derive(Clone, Copy, Debug, PartialEq, Eq, Structural)]
pub enum ServiceKind {
    /// The service connects processes through shared memory.
    Ipc,
    /// The service connects endpoints of one process.
    Local,
}

/// The storage cell of a publisher-side sample, as foreign bindings see it.
/// The cell owns the token; taking the token for a send or a move leaves the
/// cell empty, and a later take observes the empty cell instead of reusing
/// the token, so a double send is detected and reported.
#[derive(Debug)]
pub struct SampleCell {
    kind: ServiceKind,
    value: Option<SampleMut>,
}

impl SampleCell {
    /// The service kind tag of the cell.
    pub closed spec fn kind(&self) -> ServiceKind {
        self.kind
    }

    /// The token the cell holds, if any.
    pub closed spec fn value(&self) -> Option<SampleMut> {
        self.value
    }

    /// Wraps a sample of a cross-process service.
    pub fn new_ipc(sample: SampleMut) -> (r: SampleCell)
        ensures
            r.kind() == ServiceKind::Ipc,
            r.value() == Some(sample),
    {
        SampleCell { kind: ServiceKind::Ipc, value: Some(sample) }
    }

    /// Wraps a sample of an in-process service.
    pub fn new_local(sample: SampleMut) -> (r: SampleCell)
        ensures
            r.kind() == ServiceKind::Local,
            r.value() == Some(sample),
    {
        SampleCell { kind: ServiceKind::Local, value: Some(sample) }
    }

    /// Returns whether the cell still holds its token.
    pub fn holds_sample(&self) -> (r: bool)
        ensures
            r == (self.value() is Some),
    {
        self.value.is_some()
    }

    /// Returns a borrow of the token the cell holds, or `None` when the cell
    /// is already empty.
    pub fn sample_ref(&self) -> (r: Option<&SampleMut>)
        ensures
            match r {
                Some(s) => self.value() is Some && *s == self.value()->0,
                None => self.value() is None,
            },
    {
        self.value.as_ref()
    }

    /// Moves the contents of this cell into another cell, leaving this cell
    /// empty. The destination takes over the token and the kind tag.
    pub fn move_into(&mut self, dst: &mut SampleCell)
        requires
            old(self).value() is Some,
        ensures
            final(self).kind() == old(self).kind(),
            final(self).value() is None,
            final(dst).kind() == old(self).kind(),
            final(dst).value() == old(self).value(),
    {
        let mut taken: Option<SampleMut> = None;
        core::mem::swap(&mut self.value, &mut taken);
        dst.kind = self.kind;
        dst.value = taken;
    }

    /// Takes the token out of the cell for a terminal operation. Returns
    /// `None` when the cell is already empty: the sample was already sent or
    /// dropped, which the caller reports instead of acting twice.
    pub fn take(&mut self) -> (r: Option<SampleMut>)
        ensures
            final(self).kind() == old(self).kind(),
            final(self).value() is None,
            r == old(self).value(),
    {
        let mut taken: Option<SampleMut> = None;
        core::mem::swap(&mut self.value, &mut taken);
        taken
    }
}

} // verus!
