//! The table of pending waits, keyed by token.

use vstd::prelude::*;
use crate::event::ResourceExhausted;
use crate::policy::PendingWait;
use crate::slots::{slots_contains, slots_count, slots_entries, slots_insert, slots_limit, slots_new,
    slots_remove, Slots};

verus! {

/// The largest number of waits a table can be created for.
pub const MAX_CAPACITY: usize = 0x10_0000;

/// Tokens and the waits pending under them.
///
/// A token is a slot index below the table's capacity. It is handed out by
/// `insert`, names its wait until `remove` takes the wait out, and may be
/// handed out again afterwards.
pub struct WaitTable {
    slots: Slots,
    capacity: usize,
}

impl View for WaitTable {
    type V = Map<usize, PendingWait>;

    /// The pending waits, by token.
    closed spec fn view(&self) -> Map<usize, PendingWait> {
        slots_entries(self.slots)
    }
}

impl WaitTable {
    /// The number of tokens the table can have out at a time.
    pub closed spec fn limit(&self) -> nat {
        self.capacity as nat
    }

    /// The table is consistent: its waits are finitely many, and none sits
    /// under a token at or beyond the capacity.
    pub closed spec fn wf(&self) -> bool {
        &&& slots_limit(self.slots) == self.capacity
        &&& self.capacity <= MAX_CAPACITY
        &&& self@.dom().finite()
        &&& self@.dom().len() <= self.capacity
        &&& forall|token: usize| self@.contains_key(token) ==> token < self.capacity
    }

    /// Well-formedness, as far as callers rely on it.
    pub proof fn lemma_wf(&self)
        requires
            self.wf(),
        ensures
            self@.dom().finite(),
            self@.dom().len() <= self.limit(),
            self.limit() <= MAX_CAPACITY,
            forall|token: usize| self@.contains_key(token) ==> token < self.limit(),
    {
    }

    /// An empty table with room for `capacity` waits.
    pub fn new(capacity: usize) -> (table: WaitTable)
        requires
            capacity <= MAX_CAPACITY,
        ensures
            table.wf(),
            table@ == Map::<usize, PendingWait>::empty(),
            table.limit() == capacity,
    {
        WaitTable { slots: slots_new(capacity), capacity }
    }

    /// Stores `wait` under a token that was free, and returns the token.
    /// Fails, changing nothing, exactly when the table is at capacity.
    pub fn insert(&mut self, wait: PendingWait) -> (r: Result<usize, ResourceExhausted>)
        requires
            old(self).wf(),
        ensures
            final(self).wf(),
            final(self).limit() == old(self).limit(),
            r is Ok <==> old(self)@.dom().len() < old(self).limit(),
            match r {
                Ok(token) => {
                    &&& token < old(self).limit()
                    &&& !old(self)@.contains_key(token)
                    &&& final(self)@ == old(self)@.insert(token, wait)
                },
                Err(_) => final(self)@ == old(self)@,
            },
    {
        match slots_insert(&mut self.slots, wait) {
            Ok(token) => Ok(token),
            Err(_) => Err(ResourceExhausted),
        }
    }

    /// Takes out and returns the wait pending under `token`. A token with no
    /// pending wait, consumed before or never issued, leaves the table as it
    /// is and gives `None`.
    pub fn remove(&mut self, token: usize) -> (r: Option<PendingWait>)
        requires
            old(self).wf(),
        ensures
            final(self).wf(),
            final(self).limit() == old(self).limit(),
            final(self)@ == old(self)@.remove(token),
            r == (if old(self)@.contains_key(token) {
                Some(old(self)@[token])
            } else {
                None
            }),
    {
        if token < self.capacity && slots_contains(&self.slots, token) {
            slots_remove(&mut self.slots, token)
        } else {
            assert(self@.remove(token) =~= self@);
            None
        }
    }

    /// The number of pending waits.
    pub fn count(&self) -> (n: usize)
        requires
            self.wf(),
        ensures
            n == self@.dom().len(),
            n <= self.limit(),
    {
        slots_count(&self.slots)
    }

    /// The number of waits the table has room for.
    pub fn capacity(&self) -> (n: usize)
        ensures
            n == self.limit(),
    {
        self.capacity
    }
}

} // verus!
