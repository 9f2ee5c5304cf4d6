//! The buffering reader: drains a byte source through a buffer backend
//! and hands the bytes out on request, by count or up to a delimiter.

use vstd::prelude::*;
use vstd::slice::slice_subrange;

use crate::buffer::{take_count, Buffer};
use crate::error::ReadError;
use crate::scan::{found_at, first_delim, has_delim, lemma_found_at_unique};
use crate::source::ByteSource;

verus! {

/// Buffering reader: owns one byte source and one buffer.
pub struct BufRefReader<S, B> {
    src: S,
    buf: B,
}

/// Builder for [`BufRefReader`]: carries the byte source and the initial
/// buffer capacity until the backend is chosen.
pub struct BufRefReaderBuilder<S> {
    src: S,
    bufsize: usize,
}

impl<S: ByteSource> BufRefReaderBuilder<S> {
    /// What the source handed to the builder still holds.
    pub closed spec fn remaining(&self) -> Seq<u8> {
        self.src.remaining()
    }

    /// The initial buffer capacity configured so far.
    pub closed spec fn bufsize(&self) -> usize {
        self.bufsize
    }

    /// Well-formedness of the carried source.
    pub closed spec fn inv(&self) -> bool {
        self.src.inv()
    }

    /// Creates a new builder with the given source and default options.
    pub fn new(src: S) -> (r: Self)
        requires
            src.inv(),
        ensures
            r.inv(),
            r.remaining() == src.remaining(),
            r.bufsize() == 8192,
    {
        BufRefReaderBuilder { src, bufsize: 8192 }
    }

    /// Sets the initial buffer capacity.
    pub fn capacity(self, bufsize: usize) -> (r: Self)
        requires
            self.inv(),
        ensures
            r.inv(),
            r.remaining() == self.remaining(),
            r.bufsize() == bufsize,
    {
        BufRefReaderBuilder { src: self.src, bufsize }
    }

    /// Creates the actual reader over the chosen buffer backend, whose
    /// store is asked to hold at least the configured capacity.
    pub fn build<B: Buffer>(self) -> (r: Result<BufRefReader<S, B>, ReadError>)
        requires
            self.inv(),
        ensures
            r matches Ok(rd) ==> rd.inv() && rd.stream() == self.remaining()
                && rd.buffered().len() == 0 && rd.room() >= self.bufsize(),
    {
        match B::new(self.bufsize) {
            Ok(buf) => {
                let rd = BufRefReader { src: self.src, buf };
                proof {
                    assert(rd.stream() =~= rd.src.remaining());
                }
                Ok(rd)
            },
            Err(e) => Err(e),
        }
    }
}

impl<S: ByteSource, B: Buffer> BufRefReader<S, B> {
    /// Everything still to be read: the buffered bytes, then whatever the
    /// source has not handed out yet.
    pub closed spec fn stream(&self) -> Seq<u8> {
        self.buf.data() + self.src.remaining()
    }

    /// The buffered prefix of the stream.
    pub closed spec fn buffered(&self) -> Seq<u8> {
        self.buf.data()
    }

    /// The room the buffer has for further bytes.
    pub closed spec fn room(&self) -> nat {
        self.buf.pending().len()
    }

    /// Well-formedness of the source and the buffer.
    pub closed spec fn inv(&self) -> bool {
        self.src.inv() && self.buf.inv()
    }

    /// The buffered bytes are a prefix of the stream.
    pub proof fn lemma_buffered_is_stream_prefix(&self)
        ensures
            self.buffered().len() <= self.stream().len(),
            self.buffered() == self.stream().take(self.buffered().len() as int),
    {
        assert(self.buffered() =~= self.stream().take(self.buffered().len() as int));
    }

    /// Creates a buffered reader with default options; see
    /// [`BufRefReaderBuilder`] for tweaks.
    pub fn new(src: S) -> (r: Result<BufRefReader<S, B>, ReadError>)
        requires
            src.inv(),
        ensures
            r matches Ok(rd) ==> rd.inv() && rd.stream() == src.remaining()
                && rd.buffered().len() == 0 && rd.room() >= 8192,
    {
        BufRefReaderBuilder::new(src).build()
    }

    /// Makes room in the buffer and moves the next chunk of the source
    /// into it. Reports where the new bytes begin within the buffered
    /// prefix, or nothing when the source has ended.
    fn fill(&mut self) -> (r: Result<Option<usize>, ReadError>)
        requires
            old(self).inv(),
        ensures
            final(self).inv(),
            final(self).stream() == old(self).stream(),
            (r matches Ok(Some(off)) ==> off == old(self).buffered().len()
                && final(self).buffered().len() > old(self).buffered().len()
                && final(self).buffered().take(off as int) == old(self).buffered()),
            (r matches Ok(None) ==> final(self).buffered() == old(self).buffered()
                && old(self).stream().len() == old(self).buffered().len()),
    {
        match self.buf.enlarge() {
            Ok(_) => {},
            Err(e) => {
                return Err(e);
            },
        }
        let old_len = self.buf.len();
        let room = self.buf.appendable_len();
        let chunk = match self.src.pull(room) {
            Ok(c) => c,
            Err(e) => {
                return Err(e);
            },
        };
        if chunk.len() == 0 {
            Ok(None)
        } else {
            self.buf.append(chunk.as_slice());
            proof {
                assert(self.buffered() == old(self).buffered() + chunk@);
                assert(chunk@ == old(self).src.remaining().take(chunk@.len() as int));
                assert(self.src.remaining()
                    == old(self).src.remaining().skip(chunk@.len() as int));
                assert(self.stream() =~= old(self).stream());
                assert(self.buffered().take(old_len as int) =~= old(self).buffered());
            }
            Ok(Some(old_len))
        }
    }

    /// Returns the requested amount of bytes, or less if the end of the
    /// stream prevents the reader from fulfilling the request (a short
    /// read), or nothing once no data is left at all.
    pub fn read(&mut self, n: usize) -> (r: Result<Option<Vec<u8>>, ReadError>)
        requires
            old(self).inv(),
        ensures
            final(self).inv(),
            (r matches Err(_) ==> final(self).stream() == old(self).stream()),
            (r matches Ok(None) ==> final(self).stream() == old(self).stream()
                && (n > 0 ==> old(self).stream().len() == 0)
                && (n == 0 ==> old(self).buffered().len() == 0)),
            (r matches Ok(Some(v)) ==> v@.len() == take_count(n, old(self).stream())
                && v@ == old(self).stream().take(v@.len() as int)
                && final(self).stream() == old(self).stream().skip(v@.len() as int)
                && (n > 0 ==> old(self).stream().len() > 0)
                && (n == 0 ==> old(self).buffered().len() > 0)),
            // asking for nothing makes no fallible call
            n == 0 ==> r is Ok,
            // a request the buffered bytes already cover makes none either
            (n > 0 && old(self).buffered().len() >= n ==> r matches Ok(Some(_))),
    {
        if n == 0 {
            // Asking for nothing: mirror what consuming nothing from the
            // buffer yields, without touching the source.
            if self.buf.len() == 0 {
                return Ok(None);
            }
            let out = self.buf.consume(0);
            proof {
                assert(out@ =~= old(self).stream().take(0));
                assert(self.stream() =~= old(self).stream());
            }
            return Ok(Some(out));
        }
        let ghost s0 = self.stream();
        loop
            invariant
                self.inv(),
                self.stream() == s0,
                s0 == old(self).stream(),
                n >= 1,
                old(self).buffered().len() <= self.buffered().len(),
            ensures
                self.inv(),
                self.stream() == s0,
                old(self).buffered().len() <= self.buffered().len(),
                self.buffered().len() >= n || self.stream().len() == self.buffered().len(),
            decreases self.stream().len() - self.buffered().len(),
        {
            let len = self.buf.len();
            if len >= n {
                break;
            }
            match self.fill() {
                Ok(Some(_)) => {},
                Ok(None) => {
                    break;
                },
                Err(e) => {
                    return Err(e);
                },
            }
        }
        let len = self.buf.len();
        if len == 0 {
            Ok(None)
        } else {
            let out = self.buf.consume(n);
            proof {
                assert(out@ =~= s0.take(take_count(n, s0)));
                assert(self.stream() =~= s0.skip(take_count(n, s0)));
            }
            Ok(Some(out))
        }
    }

    /// Returns the bytes up to, and not including, the next occurrence of
    /// `delim`; the delimiter itself is consumed as well. At the end of
    /// the stream the unterminated final record is returned as it is, and
    /// nothing once no data is left at all.
    pub fn read_until(&mut self, delim: u8) -> (r: Result<Option<Vec<u8>>, ReadError>)
        requires
            old(self).inv(),
        ensures
            final(self).inv(),
            (r matches Err(_) ==> final(self).stream() == old(self).stream()),
            (r matches Ok(None) ==> old(self).stream().len() == 0
                && final(self).stream() == old(self).stream()),
            (r matches Ok(Some(v)) ==> old(self).stream().len() > 0
                && (has_delim(old(self).stream(), delim)
                    ==> v@ == old(self).stream().take(first_delim(old(self).stream(), delim))
                        && final(self).stream()
                            == old(self).stream().skip(first_delim(old(self).stream(), delim) + 1))
                && (!has_delim(old(self).stream(), delim)
                    ==> v@ == old(self).stream() && final(self).stream().len() == 0)),
            // a delimiter already buffered is found without a fallible call
            has_delim(old(self).buffered(), delim) ==> r is Ok,
    {
        let ghost s0 = self.stream();
        // Position within the buffered prefix up to which the search has
        // already failed; never rescanned.
        let mut pos: usize = 0;
        let mut found: Option<usize> = None;
        loop
            invariant_except_break
                found is None,
            invariant
                self.inv(),
                self.stream() == s0,
                s0 == old(self).stream(),
                pos <= self.buffered().len(),
                old(self).buffered().len() <= self.buffered().len(),
                forall|j: int| 0 <= j < pos ==> s0[j] != delim,
            ensures
                self.inv(),
                self.stream() == s0,
                (found matches Some(i) ==> found_at(s0, delim, i as int)
                    && i < self.buffered().len()),
                (found is None ==> !has_delim(s0, delim)
                    && self.stream().len() == self.buffered().len()),
            decreases self.stream().len() - pos, self.stream().len() - self.buffered().len(),
        {
            let filled = self.buf.filled();
            let flen = filled.len();
            let hay = slice_subrange(filled.as_slice(), pos, flen);
            match memchr::memchr(delim, hay) {
                Some(k) => {
                    let at = pos + k;
                    proof {
                        assert(found_at(s0, delim, at as int)) by {
                            assert(hay@[k as int] == s0[at as int]);
                            assert forall|j: int| 0 <= j < at implies s0[j] != delim by {
                                if pos <= j {
                                    assert(hay@[j - pos] != delim);
                                }
                            }
                        }
                    }
                    found = Some(at);
                    break;
                },
                None => {
                    proof {
                        // Everything buffered at scan time is a stream
                        // prefix free of the delimiter up to `flen`.
                        assert(filled@ =~= s0.take(flen as int));
                        assert(old(self).buffered().len() <= flen);
                    }
                    match self.fill() {
                        Ok(Some(off)) => {
                            proof {
                                assert forall|j: int| 0 <= j < off implies s0[j] != delim by {
                                    if pos <= j {
                                        assert(hay@[j - pos] != delim);
                                    }
                                }
                            }
                            pos = off;
                        },
                        Ok(None) => {
                            proof {
                                assert(self.stream() =~= self.buffered());
                                assert(!has_delim(s0, delim)) by {
                                    assert forall|j: int| 0 <= j < s0.len()
                                        implies s0[j] != delim by {
                                        if pos <= j {
                                            assert(hay@[j - pos] != delim);
                                        }
                                    }
                                }
                            }
                            break;
                        },
                        Err(e) => {
                            proof {
                                // Were a delimiter already buffered on
                                // entry, this scan would have found it
                                // before anything fallible ran.
                                if has_delim(old(self).buffered(), delim) {
                                    let i = first_delim(old(self).buffered(), delim);
                                    assert(found_at(old(self).buffered(), delim, i));
                                    assert(old(self).buffered()
                                        =~= s0.take(old(self).buffered().len() as int));
                                    assert(s0[i] == delim);
                                    if i >= pos {
                                        assert(hay@[i - pos] == filled@[i]);
                                        assert(filled@[i] == s0[i]);
                                    }
                                    assert(false);
                                }
                            }
                            return Err(e);
                        },
                    }
                },
            }
        }
        match found {
            None => {
                // End of stream with no delimiter: the final, unterminated
                // record, or nothing when nothing is left.
                let blen = self.buf.len();
                if blen == 0 {
                    Ok(None)
                } else {
                    let out = self.buf.consume(blen);
                    proof {
                        assert(out@ =~= s0);
                        assert(self.stream() =~= Seq::<u8>::empty());
                    }
                    Ok(Some(out))
                }
            },
            Some(i) => {
                proof {
                    assert(has_delim(s0, delim));
                    lemma_found_at_unique(s0, delim, i as int, first_delim(s0, delim));
                }
                let blen = self.buf.len();
                assert(i < blen);
                let mut out = self.buf.consume(i + 1);
                out.truncate(i);
                proof {
                    assert(out@ =~= s0.take(i as int));
                    assert(self.stream() =~= s0.skip(i + 1));
                }
                Ok(Some(out))
            },
        }
    }
}

} // verus!
