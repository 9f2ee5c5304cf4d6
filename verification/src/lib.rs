//! Buffered input layer built on a growable buffer abstraction with two
//! backends: a heap buffer that compacts and doubles, and a mirrored ring
//! buffer backed by a circular virtual-memory mapping. A reader drains a
//! byte source through such a buffer and hands data out by byte count or
//! up to a delimiter, with short reads at the end of the stream instead
//! of errors.

mod buffer;
mod error;
mod mmap_buffer;
mod reader;
mod ring;
mod scan;
mod source;
mod vec_buffer;

pub use buffer::{take_count, Buffer};
pub use error::ReadError;
pub use mmap_buffer::MmapBuffer;
pub use reader::{BufRefReader, BufRefReaderBuilder};
pub use scan::{
    first_delim, found_at, has_delim, join_separated, join_terminated, lemma_split_round_trip,
    records,
};
pub use source::{ByteSource, SliceSource};
pub use vec_buffer::VecBuffer;
