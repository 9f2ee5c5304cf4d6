//! Byte sources that feed a reader.

use vstd::prelude::*;
use vstd::slice::{slice_subrange, slice_to_vec};

use crate::error::ReadError;

verus! {

/// A stream of bytes for a reader to drain. A source hands out the next
/// bytes of its stream, in order, in chunks of whatever size it likes,
/// and reports end-of-stream by handing out nothing although more than
/// nothing was asked for.
pub trait ByteSource: Sized {
    /// Well-formedness of the source's own bookkeeping.
    spec fn inv(&self) -> bool;

    /// The bytes the source has not yet handed out.
    spec fn remaining(&self) -> Seq<u8>;

    /// Hand out up to `max` of the next bytes of the stream. An empty
    /// result with `max > 0` means the stream has ended; a failed pull
    /// hands out nothing.
    fn pull(&mut self, max: usize) -> (r: Result<Vec<u8>, ReadError>)
        requires
            old(self).inv(),
        ensures
            final(self).inv(),
            (r matches Ok(v) ==> v@.len() <= max
                && v@.len() <= old(self).remaining().len()
                && v@ == old(self).remaining().take(v@.len() as int)
                && final(self).remaining() == old(self).remaining().skip(v@.len() as int)
                && (v@.len() == 0 ==> max == 0 || old(self).remaining().len() == 0)),
            (r matches Err(_) ==> final(self).remaining() == old(self).remaining()),
    ;
}

/// Source that drains an owned byte vector front to back.
pub struct SliceSource {
    data: Vec<u8>,
    pos: usize,
}

impl SliceSource {
    /// Wraps `data` as a source whose stream is exactly `data`.
    pub fn new(data: Vec<u8>) -> (r: SliceSource)
        ensures
            r.inv(),
            r.remaining() == data@,
    {
        let r = SliceSource { data, pos: 0 };
        proof {
            assert(r.remaining() =~= r.data@);
        }
        r
    }
}

impl ByteSource for SliceSource {
    closed spec fn inv(&self) -> bool {
        self.pos <= self.data@.len()
    }

    closed spec fn remaining(&self) -> Seq<u8> {
        self.data@.skip(self.pos as int)
    }

    fn pull(&mut self, max: usize) -> (r: Result<Vec<u8>, ReadError>)
        ensures
            r is Ok,
    {
        let avail = self.data.len() - self.pos;
        let n = if max <= avail {
            max
        } else {
            avail
        };
        let v = slice_to_vec(slice_subrange(self.data.as_slice(), self.pos, self.pos + n));
        self.pos = self.pos + n;
        proof {
            assert(v@ =~= old(self).remaining().take(v@.len() as int));
            assert(self.remaining() =~= old(self).remaining().skip(v@.len() as int));
        }
        Ok(v)
    }
}

} // verus!
