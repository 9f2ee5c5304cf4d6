//! The capability contract that every buffer backend satisfies.
//!
//! A buffer owns a backing store split into two regions: the *filled*
//! region holds valid, unconsumed bytes in logical order, and the
//! *appendable* region is the room into which new bytes may be written.
//! The two regions partition the store: bytes enter by being written into
//! the appendable region and committed with [`Buffer::mark_appended`] (or
//! both at once with [`Buffer::append`]), and leave from the front of the
//! filled region through [`Buffer::consume`].

use vstd::prelude::*;

use crate::error::ReadError;

verus! {

/// How many bytes a request for `amount` takes from the front of `data`:
/// all of `amount` if available, otherwise everything that is there.
pub open spec fn take_count(amount: usize, data: Seq<u8>) -> int {
    if amount as int <= data.len() {
        amount as int
    } else {
        data.len() as int
    }
}

/// Capability contract for a growable byte store that separates the data
/// available to read from the space available to append into.
pub trait Buffer: Sized {
    /// Well-formedness of the backend's offset and length bookkeeping.
    spec fn inv(&self) -> bool;

    /// The filled region: bytes appended and not yet consumed, in order.
    spec fn data(&self) -> Seq<u8>;

    /// Current contents of the appendable region.
    spec fn pending(&self) -> Seq<u8>;

    /// Allocate a backing store able to hold at least `size` bytes
    /// (backends may round the capacity up). The new buffer is empty.
    fn new(size: usize) -> (r: Result<Self, ReadError>)
        ensures
            r matches Ok(b) ==> b.inv() && b.data() == Seq::<u8>::empty()
                && b.pending().len() >= size,
    ;

    /// Size of the filled region.
    fn len(&self) -> (r: usize)
        requires
            self.inv(),
        ensures
            r == self.data().len(),
    ;

    /// Size of the appendable region.
    fn appendable_len(&self) -> (r: usize)
        requires
            self.inv(),
        ensures
            r == self.pending().len(),
    ;

    /// Write `bytes` at the front of the appendable region and commit
    /// them to the filled region in one step.
    fn append(&mut self, bytes: &[u8])
        requires
            old(self).inv(),
            bytes@.len() <= old(self).pending().len(),
        ensures
            final(self).inv(),
            final(self).data() == old(self).data() + bytes@,
            final(self).pending() == old(self).pending().skip(bytes@.len() as int),
    ;

    /// Commit the first `amount` bytes of the appendable region, as they
    /// stand, to the filled region.
    fn mark_appended(&mut self, amount: usize)
        requires
            old(self).inv(),
            amount <= old(self).pending().len(),
        ensures
            final(self).inv(),
            final(self).data() == old(self).data() + old(self).pending().take(amount as int),
            final(self).pending() == old(self).pending().skip(amount as int),
    ;

    /// The filled region, copied out in logical order.
    fn filled(&self) -> (r: Vec<u8>)
        requires
            self.inv(),
        ensures
            r@ == self.data(),
    ;

    /// Remove up to `amount` bytes from the front of the filled region and
    /// return them; fewer than `amount` are returned only when fewer are
    /// available. This never shrinks the appendable region.
    fn consume(&mut self, amount: usize) -> (r: Vec<u8>)
        requires
            old(self).inv(),
        ensures
            final(self).inv(),
            r@ == old(self).data().take(take_count(amount, old(self).data())),
            final(self).data() == old(self).data().skip(take_count(amount, old(self).data())),
            final(self).pending().len() >= old(self).pending().len(),
    ;

    /// Make sure the appendable region is not empty, growing or
    /// rearranging the backing store if needed; with room already there,
    /// this does nothing. The filled region is never changed, also when
    /// growth fails.
    fn enlarge(&mut self) -> (r: Result<(), ReadError>)
        requires
            old(self).inv(),
        ensures
            final(self).inv(),
            final(self).data() == old(self).data(),
            r matches Ok(_) ==> final(self).pending().len() >= 1,
            old(self).pending().len() >= 1 ==> final(self).pending() == old(self).pending(),
    ;
}

} // verus!
