//! Mirrored ring buffer backend: a circular virtual-memory mapping makes
//! both the filled and the appendable region contiguous even after the
//! logical buffer has wrapped, so no compaction is ever needed.

use vstd::prelude::*;

use crate::buffer::{take_count, Buffer};
use crate::error::ReadError;
use crate::ring::{
    ring_append, ring_capacity, ring_consume, ring_feed, ring_filled, ring_new, ring_read_len,
    ring_write_len,
};
use crate::ring::{ring_data, ring_pending};

verus! {

/// Buffer that uses a circular buffer implemented with mirrored memory
/// maps.
///
/// Consuming from the front immediately frees room at the back, so
/// `enlarge` only ever acts when the ring is completely full: it then
/// maps a ring of twice the capacity, moves the live bytes to its start
/// and releases the old mapping.
pub struct MmapBuffer {
    ring: vmap::io::Ring,
}

impl Buffer for MmapBuffer {
    closed spec fn inv(&self) -> bool {
        ring_data(&self.ring).len() + ring_pending(&self.ring).len() >= 1
    }

    closed spec fn data(&self) -> Seq<u8> {
        ring_data(&self.ring)
    }

    closed spec fn pending(&self) -> Seq<u8> {
        ring_pending(&self.ring)
    }

    fn new(size: usize) -> (r: Result<Self, ReadError>)
        ensures
            // a size the mirror arithmetic cannot take is refused outright;
            // within it, only the host's mapping call decides
            size > usize::MAX / 4 ==> (r matches Err(e) && e is Alloc),
    {
        let hint = if size == 0 {
            1
        } else {
            size
        };
        if hint > usize::MAX / 4 {
            return Err(ReadError::Alloc);
        }
        match ring_new(hint) {
            Ok(ring) => Ok(MmapBuffer { ring }),
            Err(e) => Err(ReadError::Buf(e)),
        }
    }

    fn len(&self) -> (r: usize) {
        ring_read_len(&self.ring)
    }

    fn appendable_len(&self) -> (r: usize) {
        ring_write_len(&self.ring)
    }

    fn append(&mut self, bytes: &[u8]) {
        ring_append(&mut self.ring, bytes);
    }

    fn mark_appended(&mut self, amount: usize) {
        ring_feed(&mut self.ring, amount);
    }

    fn filled(&self) -> (r: Vec<u8>) {
        let n = ring_read_len(&self.ring);
        let v = ring_filled(&self.ring, n);
        proof {
            assert(self.data().take(take_count(n, self.data())) =~= self.data());
        }
        v
    }

    fn consume(&mut self, amount: usize) -> (r: Vec<u8>)
        ensures
            // room freed at the front reappears at once at the end of the
            // appendable region, still holding the discarded bytes
            final(self).pending() == old(self).pending()
                + old(self).data().take(take_count(amount, old(self).data())),
    {
        let avail = ring_read_len(&self.ring);
        let n = if amount <= avail {
            amount
        } else {
            avail
        };
        let out = ring_filled(&self.ring, n);
        ring_consume(&mut self.ring, n);
        out
    }

    fn enlarge(&mut self) -> (r: Result<(), ReadError>)
        ensures
            // with room already there no outside call runs
            old(self).pending().len() >= 1 ==> r is Ok,
            // on failure the buffer is completely untouched
            r is Err ==> final(self).pending() == old(self).pending(),
            // growth is refused before any mapping call exactly when
            // doubling a full ring would overrun the mirror arithmetic
            (old(self).pending().len() == 0 && old(self).data().len() > usize::MAX / 8
                ==> (r matches Err(e) && e is Alloc)),
            (r matches Err(e) ==> (e is Alloc ==> old(self).pending().len() == 0
                && old(self).data().len() > usize::MAX / 8)),
            // a successful full-ring growth frees at least one whole
            // capacity of room
            (r is Ok && old(self).pending().len() == 0
                ==> final(self).pending().len() >= old(self).data().len()),
    {
        let room = ring_write_len(&self.ring);
        if room == 0 {
            let cap = ring_capacity(&self.ring);
            if cap > usize::MAX / 8 {
                return Err(ReadError::Alloc);
            }
            let mut grown = match ring_new(cap * 2) {
                Ok(ring) => ring,
                Err(e) => {
                    return Err(ReadError::Buf(e));
                },
            };
            // Move the live bytes to the start of the new ring; the old
            // mapping is released when it is replaced below.
            let live = ring_filled(&self.ring, cap);
            proof {
                assert(self.data().take(take_count(cap, self.data())) =~= self.data());
            }
            ring_append(&mut grown, live.as_slice());
            self.ring = grown;
        }
        Ok(())
    }
}

} // verus!
