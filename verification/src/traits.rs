use vstd::prelude::*;

verus! {

use crate::buffer::Buffer;

/// Error returned by the checked write operations when the data to append
/// would not fit in the space left before the capacity is reached.
///
/// The buffer is left unchanged when this error is reported: a checked write
/// is all-or-nothing.
#[derive(Clone, Copy, Debug, PartialEq, Eq)]
pub enum WriteBufferError {
    BufferFull,
}

/// Error arising while pulling bytes from an external byte source into a
/// buffer.
///
/// Running out of data is deliberately kept apart from a transport failure:
/// an exhausted source is not a corrupted one.
#[derive(Clone, Copy, Debug, PartialEq, Eq)]
pub enum FillError {
    /// The source produced zero bytes: there is nothing more to read.
    SourceExhausted,
    /// The source reported a failure of its own.
    SourceFailed,
}

/// A producer that can deposit bytes into a buffer's unfilled space.
///
/// Implementations live outside this library, next to whatever actually
/// produces the bytes (a file, a socket, an in-memory stream). They are
/// expected to request at most `remaining_space()` bytes and to hand them to
/// [`Buffer::fill_from`], which performs the verified bookkeeping.
pub trait ReadToBuf {
    fn read_to_buf<const N: usize>(&mut self, buf: &mut Buffer<N>) -> Result<(), FillError>;
}

} // verus!
