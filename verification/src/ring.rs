//! Trusted interface to `vmap::io::Ring`, the circular buffer backed by a
//! mirrored virtual-memory mapping.
//!
//! The ring is modelled as a bounded byte queue. Two names describe a
//! ring's state: [`ring_data`], the committed bytes waiting to be read,
//! and [`ring_pending`], the bytes standing in the writable region. Their
//! lengths always sum to the ring's capacity. Because the mapping places
//! the same physical bytes at two adjacent virtual addresses, both
//! regions are contiguous slices no matter where they start, and the room
//! freed by discarding read bytes reappears at the end of the writable
//! region.

use vstd::prelude::*;

use crate::buffer::take_count;

verus! {

/// Declares `vmap::io::Ring` so that it can be held in a field and passed
/// through these wrappers. Values of it are opaque to the rest of the
/// crate; the functions below say everything that is known about one.
#[verifier::external_type_specification]
#[verifier::external_body]
pub struct ExRing(vmap::io::Ring);

/// The committed, unconsumed bytes held by the ring, oldest first.
pub uninterp spec fn ring_data(r: &vmap::io::Ring) -> Seq<u8>;

/// The bytes standing in the ring's writable region, in address order.
pub uninterp spec fn ring_pending(r: &vmap::io::Ring) -> Seq<u8>;

/// Relies on `vmap::io::Ring::new`: it maps a fresh, empty ring whose
/// capacity is `hint` rounded up to the system's allocation granularity.
/// The bound on `hint` keeps that rounding, and the doubled virtual
/// range backing the mirror, far from address-space arithmetic limits.
#[verifier::external_body]
pub(crate) fn ring_new(hint: usize) -> (r: Result<vmap::io::Ring, vmap::Error>)
    requires
        1 <= hint <= usize::MAX / 4,
    ensures
        (r matches Ok(ring) ==> ring_data(&ring).len() == 0
            && ring_pending(&ring).len() >= hint),
{
    vmap::io::Ring::new(hint)
}

/// Relies on `vmap::io::SeqRead::read_len` for `Ring`: the number of
/// readable bytes.
#[verifier::external_body]
pub(crate) fn ring_read_len(r: &vmap::io::Ring) -> (n: usize)
    ensures
        n == ring_data(r).len(),
{
    vmap::io::SeqRead::read_len(r)
}

/// Relies on `vmap::io::SeqWrite::write_len` for `Ring`: the number of
/// writable bytes, that is the capacity less the readable bytes.
#[verifier::external_body]
pub(crate) fn ring_write_len(r: &vmap::io::Ring) -> (n: usize)
    ensures
        n == ring_pending(r).len(),
{
    vmap::io::SeqWrite::write_len(r)
}

/// Relies on `vmap::io::SeqWrite::write_capacity` for `Ring`: the
/// capacity, which the readable and writable lengths always sum to.
#[verifier::external_body]
pub(crate) fn ring_capacity(r: &vmap::io::Ring) -> (n: usize)
    ensures
        n == ring_data(r).len() + ring_pending(r).len(),
{
    vmap::io::SeqWrite::write_capacity(r)
}

/// Relies on `vmap::io::SeqWrite::write_into` for `Ring`: it copies the
/// given bytes into the front of the writable region and commits them,
/// all of them when they fit, which the caller guarantees here.
#[verifier::external_body]
pub(crate) fn ring_append(r: &mut vmap::io::Ring, bytes: &[u8])
    requires
        bytes@.len() <= ring_pending(old(r)).len(),
    ensures
        ring_data(final(r)) == ring_data(old(r)) + bytes@,
        ring_pending(final(r)) == ring_pending(old(r)).skip(bytes@.len() as int),
{
    let _ = vmap::io::SeqWrite::write_into(r, bytes);
}

/// Relies on `vmap::io::SeqWrite::feed` for `Ring`: it commits the first
/// `amount` bytes of the writable region, as they stand, to the readable
/// region.
#[verifier::external_body]
pub(crate) fn ring_feed(r: &mut vmap::io::Ring, amount: usize)
    requires
        amount <= ring_pending(old(r)).len(),
    ensures
        ring_data(final(r)) == ring_data(old(r)) + ring_pending(old(r)).take(amount as int),
        ring_pending(final(r)) == ring_pending(old(r)).skip(amount as int),
{
    vmap::io::SeqWrite::feed(r, amount);
}

/// Relies on `vmap::io::SeqRead::as_read_slice` for `Ring`: the readable
/// bytes, capped at `max`, as one contiguous slice thanks to the mirror.
#[verifier::external_body]
pub(crate) fn ring_filled(r: &vmap::io::Ring, max: usize) -> (v: Vec<u8>)
    ensures
        v@ == ring_data(r).take(take_count(max, ring_data(r))),
{
    vmap::io::SeqRead::as_read_slice(r, max).to_vec()
}

/// Relies on `std::io::BufRead::consume` for `Ring`: it discards `amount`
/// bytes from the front of the readable region. The freed room reappears
/// at the end of the writable region and, through the mirror, still holds
/// the discarded bytes.
#[verifier::external_body]
pub(crate) fn ring_consume(r: &mut vmap::io::Ring, amount: usize)
    requires
        amount <= ring_data(old(r)).len(),
    ensures
        ring_data(final(r)) == ring_data(old(r)).skip(amount as int),
        ring_pending(final(r)) == ring_pending(old(r)) + ring_data(old(r)).take(amount as int),
{
    std::io::BufRead::consume(r, amount);
}

} // verus!
