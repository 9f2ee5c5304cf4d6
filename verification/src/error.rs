//! The error taxonomy shared by every reading and buffer operation.

use vstd::prelude::*;

verus! {

/// Declares `std::io::Error` so that it can be carried inside [`ReadError`].
/// Values of it are opaque here; the byte source that produced one is the
/// authority on what it means.
#[verifier::external_type_specification]
#[verifier::external_body]
pub struct ExIoError(std::io::Error);

/// Declares `vmap::Error` so that it can be carried inside [`ReadError`].
/// It reports a failed virtual-memory mapping operation.
#[verifier::external_type_specification]
#[verifier::external_body]
pub struct ExVmapError(vmap::Error);

/// Error type that reading and buffer operations might emit.
#[derive(Debug)]
pub enum ReadError {
    /// Error reported by the byte source feeding the reader.
    IO(std::io::Error),
    /// Failure to create or grow a memory-mapped buffer.
    Buf(vmap::Error),
    /// The backing store cannot be grown any further.
    Alloc,
}

} // verus!
