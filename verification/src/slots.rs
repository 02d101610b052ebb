//! The slab that backs the wait table, and what is taken on trust about it.
//!
//! The slab itself is `mio::util::Slab`, which is the `Slab` of the `slab`
//! crate indexed by `mio::Token`. Nothing in this module is proved: each
//! function makes one call into the slab, and its contract restates what the
//! slab's source does on the inputs that the contract allows.

use vstd::prelude::*;
use mio::util::Slab;
use mio::Token;
use crate::policy::PendingWait;

verus! {

/// A `mio::util::Slab` of pending waits, indexed from zero.
///
/// The field is private and only the functions below reach it, so a `Slots` is
/// always a slab that `Slab::new` made and that `insert` and `remove` changed
/// since. `remove` is only ever called on a filled slot: called on an empty one
/// the slab would rewrite that slot's link in its chain of free slots, and a
/// later `insert` could then fail or panic although a slot is free.
#[verifier::external_body]
pub struct Slots {
    inner: Slab<PendingWait>,
}

/// The filled slots of the slab: slot index to the value stored there.
pub uninterp spec fn slots_entries(slots: Slots) -> Map<usize, PendingWait>;

/// The number of slots the slab was created with.
pub uninterp spec fn slots_limit(slots: Slots) -> nat;

/// `Slab::new`: a slab of `capacity` slots, all of them empty. The bound keeps
/// the slab's allocation, and the `capacity + 1` it computes, within range.
#[verifier::external_body]
pub(crate) fn slots_new(capacity: usize) -> (slots: Slots)
    requires
        capacity <= 0x10_0000,
    ensures
        slots_entries(slots) == (Map::<usize, PendingWait>::empty()),
        slots_limit(slots) == capacity,
{
    Slots { inner: Slab::new(capacity) }
}

/// `Slab::count`: the number of filled slots.
#[verifier::external_body]
pub(crate) fn slots_count(slots: &Slots) -> (n: usize)
    requires
        slots_entries(*slots).dom().finite(),
    ensures
        n == slots_entries(*slots).dom().len(),
{
    slots.inner.count()
}

/// `Slab::contains`: whether the slot at `index` is filled. The slab indexes
/// its slots without a bounds check of its own below its allocated capacity, so
/// `index` stays below the number of slots.
#[verifier::external_body]
pub(crate) fn slots_contains(slots: &Slots, index: usize) -> (filled: bool)
    requires
        index < slots_limit(*slots),
    ensures
        filled == slots_entries(*slots).contains_key(index),
{
    slots.inner.contains(Token(index))
}

/// `Slab::insert`: fills a slot that was empty and returns its index, or hands
/// the value back, changing nothing, when every slot is filled.
#[verifier::external_body]
pub(crate) fn slots_insert(slots: &mut Slots, value: PendingWait) -> (r: Result<usize, PendingWait>)
    requires
        slots_entries(*old(slots)).dom().finite(),
    ensures
        slots_limit(*final(slots)) == slots_limit(*old(slots)),
        r is Ok <==> slots_entries(*old(slots)).dom().len() < slots_limit(*old(slots)),
        match r {
            Ok(index) => {
                &&& index < slots_limit(*old(slots))
                &&& !slots_entries(*old(slots)).contains_key(index)
                &&& slots_entries(*final(slots)) == slots_entries(*old(slots)).insert(index, value)
            },
            Err(back) => {
                &&& back == value
                &&& slots_entries(*final(slots)) == slots_entries(*old(slots))
            },
        },
{
    match slots.inner.insert(value) {
        Ok(token) => Ok(token.0),
        Err(back) => Err(back),
    }
}

/// `Slab::remove` on a filled slot: empties it and returns what it held.
#[verifier::external_body]
pub(crate) fn slots_remove(slots: &mut Slots, index: usize) -> (r: Option<PendingWait>)
    requires
        index < slots_limit(*old(slots)),
        slots_entries(*old(slots)).contains_key(index),
    ensures
        slots_limit(*final(slots)) == slots_limit(*old(slots)),
        r == Some(slots_entries(*old(slots))[index]),
        slots_entries(*final(slots)) == slots_entries(*old(slots)).remove(index),
{
    slots.inner.remove(Token(index))
}

} // verus!
