//! Heap-growable buffer backend: one resizable allocation with
//! move-to-front compaction and capacity doubling.

use vstd::prelude::*;
use vstd::slice::{slice_subrange, slice_to_vec};

use crate::buffer::{take_count, Buffer};
use crate::error::ReadError;

verus! {

/// `Vec`-backed buffer.
///
/// The filled region is `buf[start..end]`; the appendable region is
/// `buf[end..]`. `enlarge` compacts the filled region to the front when
/// the tail room is exhausted, and doubles the allocation when the whole
/// store is full.
pub struct VecBuffer {
    buf: Vec<u8>,
    start: usize,
    end: usize,
}

impl VecBuffer {
    /// Size of the backing store.
    pub closed spec fn capacity(&self) -> nat {
        self.buf@.len()
    }
}

impl Buffer for VecBuffer {
    closed spec fn inv(&self) -> bool {
        self.start <= self.end <= self.buf@.len()
    }

    closed spec fn data(&self) -> Seq<u8> {
        self.buf@.subrange(self.start as int, self.end as int)
    }

    closed spec fn pending(&self) -> Seq<u8> {
        self.buf@.subrange(self.end as int, self.buf@.len() as int)
    }

    fn new(size: usize) -> (r: Result<Self, ReadError>)
        ensures
            r is Ok,
            // the heap backend allocates exactly the requested size
            r matches Ok(b) ==> b.capacity() == size && b.pending().len() == size,
    {
        let buf = vec![0u8; size];
        let b = VecBuffer { buf, start: 0, end: 0 };
        proof {
            assert(b.data() =~= Seq::<u8>::empty());
        }
        Ok(b)
    }

    fn len(&self) -> (r: usize) {
        self.end - self.start
    }

    fn appendable_len(&self) -> (r: usize) {
        self.buf.len() - self.end
    }

    fn append(&mut self, bytes: &[u8])
        ensures
            final(self).capacity() == old(self).capacity(),
    {
        let count = bytes.len();
        let cap = self.buf.len();
        let mut i: usize = 0;
        while i < count
            invariant
                i <= count,
                count == bytes@.len(),
                self.start == old(self).start,
                self.end == old(self).end,
                cap == self.buf@.len(),
                cap == old(self).buf@.len(),
                self.end + count <= cap,
                forall|j: int|
                    0 <= j < cap && !(self.end <= j < self.end + i)
                        ==> self.buf@[j] == old(self).buf@[j],
                forall|j: int|
                    self.end <= j < self.end + i
                        ==> self.buf@[j] == bytes@[j - self.end],
            decreases count - i,
        {
            let dst = self.end + i;
            let ghost pre = self.buf@;
            self.buf[dst] = bytes[i];
            proof {
                assert(self.buf@ == pre.update(dst as int, bytes@[i as int]));
            }
            i = i + 1;
        }
        self.end = self.end + count;
        proof {
            assert(self.data() =~= old(self).data() + bytes@);
            assert(self.pending() =~= old(self).pending().skip(count as int));
        }
    }

    fn mark_appended(&mut self, amount: usize)
        ensures
            final(self).capacity() == old(self).capacity(),
    {
        let cap = self.buf.len();
        assert(self.end + amount <= cap);
        self.end = self.end + amount;
        proof {
            assert(self.data()
                =~= old(self).data() + old(self).pending().take(amount as int));
            assert(self.pending() =~= old(self).pending().skip(amount as int));
        }
    }

    fn filled(&self) -> (r: Vec<u8>) {
        slice_to_vec(slice_subrange(self.buf.as_slice(), self.start, self.end))
    }

    fn consume(&mut self, amount: usize) -> (r: Vec<u8>)
        ensures
            // the heap backend frees no room on consume; only enlarge does
            final(self).pending() == old(self).pending(),
            final(self).capacity() == old(self).capacity(),
    {
        let avail = self.end - self.start;
        let n = if amount <= avail {
            amount
        } else {
            avail
        };
        let r = slice_to_vec(slice_subrange(self.buf.as_slice(), self.start, self.start + n));
        self.start = self.start + n;
        proof {
            assert(r@ =~= old(self).data().take(take_count(amount, old(self).data())));
            assert(self.data()
                =~= old(self).data().skip(take_count(amount, old(self).data())));
            assert(self.pending() == old(self).pending());
        }
        r
    }

    fn enlarge(&mut self) -> (r: Result<(), ReadError>)
        ensures
            old(self).capacity() <= usize::MAX / 2 ==> r is Ok,
            // growth is refused only when doubling a full store would
            // overflow the address space, and then nothing changes
            r is Err ==> old(self).data().len() == old(self).capacity()
                && old(self).capacity() > usize::MAX / 2
                && *final(self) == *old(self),
            // the store is reallocated only when it is completely full
            old(self).data().len() < old(self).capacity()
                ==> final(self).capacity() == old(self).capacity(),
            // compaction: with no tail room and a store that is not full,
            // all room beyond the filled bytes becomes appendable
            (r is Ok && old(self).pending().len() == 0
                && old(self).data().len() < old(self).capacity()
                ==> final(self).pending().len()
                    == old(self).capacity() - old(self).data().len()),
            // a full store doubles in size (a store of no size grows to one)
            (r is Ok && old(self).data().len() == old(self).capacity()
                ==> final(self).capacity()
                    == (if old(self).capacity() == 0 { 1int } else { 2 * old(self).capacity() as int })
                    && final(self).pending().len()
                        == final(self).capacity() - old(self).data().len()),
    {
        let cap = self.buf.len();
        if self.end - self.start == cap {
            // The whole store is filled: double the allocation. The filled
            // region already sits at the front (start is forced to 0 here).
            if cap > usize::MAX / 2 {
                return Err(ReadError::Alloc);
            }
            let add = if cap == 0 {
                1
            } else {
                cap
            };
            let mut k: usize = 0;
            while k < add
                invariant
                    k <= add,
                    self.start == old(self).start,
                    self.end == old(self).end,
                    self.buf@.len() == old(self).buf@.len() + k,
                    self.buf@.subrange(0, old(self).buf@.len() as int) == old(self).buf@,
                decreases add - k,
            {
                self.buf.push(0);
                proof {
                    assert(self.buf@.subrange(0, old(self).buf@.len() as int)
                        =~= old(self).buf@);
                }
                k = k + 1;
            }
            proof {
                assert(self.data() =~= old(self).data());
            }
        } else if self.end == cap {
            // No tail room although the store is not full: compact by
            // moving the filled bytes to the front. The copy runs forward,
            // so overlapping source and destination ranges are safe.
            let len = self.end - self.start;
            let mut i: usize = 0;
            while i < len
                invariant
                    i <= len,
                    len == self.end - self.start,
                    1 <= self.start <= self.end <= self.buf@.len(),
                    self.start == old(self).start,
                    self.end == old(self).end,
                    self.buf@.len() == old(self).buf@.len(),
                    forall|j: int| 0 <= j < i ==> self.buf@[j] == old(self).data()[j],
                    // The copy runs forward and each write lands strictly
                    // below the uncopied suffix, which stays intact.
                    forall|j: int|
                        self.start + i <= j < self.end
                            ==> self.buf@[j] == old(self).data()[j - self.start],
                decreases len - i,
            {
                let v = self.buf[self.start + i];
                let ghost pre = self.buf@;
                self.buf[i] = v;
                proof {
                    assert(self.buf@ == pre.update(i as int, v));
                }
                i = i + 1;
            }
            self.end = len;
            self.start = 0;
            proof {
                assert(self.data() =~= old(self).data());
            }
        } else {
            // There is still room in the appendable region: nothing to do.
        }
        Ok(())
    }
}

} // verus!
