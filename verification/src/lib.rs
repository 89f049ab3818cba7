//! Fixed-capacity byte buffers with independent read and write cursors.
//!
//! A [`Buffer`] owns one contiguous region of bytes whose capacity is fixed
//! at construction. A write cursor marks the end of the data written so far;
//! a read cursor marks the start of the data not yet consumed. Checked write
//! operations refuse to grow past the capacity, reads truncate at the end of
//! the written data, and every operation keeps both cursors inside the
//! region. Each public operation carries a contract stating exactly how it
//! moves the cursors and what bytes it returns.

mod buffer;
mod fast_slice;
mod traits;

pub use buffer::Buffer;
pub use fast_slice::FastSlice;
pub use traits::FillError;
pub use traits::ReadToBuf;
pub use traits::WriteBufferError;
