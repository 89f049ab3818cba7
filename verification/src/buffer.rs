use vstd::prelude::*;

verus! {

use vstd::slice::slice_subrange;
use vstd::slice::slice_to_vec;
use crate::traits::FillError;
use crate::traits::WriteBufferError;

/// A fixed-capacity byte buffer with independent read and write cursors.
///
/// The backing region holds exactly `N` bytes for the whole lifetime of the
/// buffer. `filled_pos` is the exclusive end of the data written so far and
/// `pos` is the start of the data not yet consumed, so the cursors always
/// satisfy `0 <= pos <= filled_pos <= N`. Writes advance `filled_pos`, reads
/// advance `pos`, and neither cursor ever moves backwards except through
/// [`Buffer::clear`], which resets both to the origin.
pub struct Buffer<const N: usize> {
    chunk: Vec<u8>,
    filled_pos: usize,
    pos: usize,
}

impl<const N: usize> Buffer<N> {
    /// The whole backing region as a sequence of bytes, filled or not.
    pub closed spec fn spec_region(&self) -> Seq<u8> {
        self.chunk@
    }

    /// The write cursor: exclusive end of the written data.
    pub closed spec fn spec_filled_pos(&self) -> int {
        self.filled_pos as int
    }

    /// The read cursor: start of the not-yet-consumed data.
    pub closed spec fn spec_read_pos(&self) -> int {
        self.pos as int
    }

    /// Well-formedness: the region has the fixed capacity and both cursors
    /// lie within it, the read cursor never past the write cursor.
    pub open spec fn wf(&self) -> bool {
        &&& self.spec_region().len() == N as int
        &&& 0 <= self.spec_read_pos() <= self.spec_filled_pos() <= N as int
    }

    /// The bytes written so far: the prefix `[0, filled_pos)` of the region.
    pub open spec fn spec_written(&self) -> Seq<u8> {
        self.spec_region().take(self.spec_filled_pos())
    }

    /// The unconsumed window `[pos, filled_pos)` exposed to readers.
    pub open spec fn spec_unread(&self) -> Seq<u8> {
        self.spec_region().subrange(self.spec_read_pos(), self.spec_filled_pos())
    }

    /// How many bytes may still be read.
    pub open spec fn spec_remaining(&self) -> int {
        self.spec_filled_pos() - self.spec_read_pos()
    }

    /// How many bytes may still be written.
    pub open spec fn spec_remaining_space(&self) -> int {
        N as int - self.spec_filled_pos()
    }

    /// How a successful append of `data` relates the buffer before (`self`)
    /// and after (`post`): the write cursor moves past the appended bytes,
    /// the read cursor stays, the appended bytes land right after the data
    /// written before, and the rest of the region is untouched.
    pub open spec fn spec_wrote(self, data: Seq<u8>, post: Self) -> bool {
        &&& post.wf()
        &&& post.spec_filled_pos() == self.spec_filled_pos() + data.len()
        &&& post.spec_read_pos() == self.spec_read_pos()
        &&& post.spec_region() == self.spec_region().take(self.spec_filled_pos()) + data
            + self.spec_region().skip(self.spec_filled_pos() + data.len())
        &&& post.spec_written() == self.spec_written() + data
        &&& post.spec_unread() == self.spec_unread() + data
    }

    /// How many bytes a read request of `len` actually yields: the request,
    /// truncated at the end of the written data.
    pub open spec fn spec_read_len(&self, len: int) -> int {
        if len <= self.spec_remaining() {
            len
        } else {
            self.spec_remaining()
        }
    }

    /// The bytes a read or peek of `len` yields: the front of the unconsumed
    /// window, truncated at the end of the written data.
    pub open spec fn spec_read_result(&self, len: int) -> Seq<u8> {
        self.spec_unread().take(self.spec_read_len(len))
    }

    /// Where the read cursor stands after consuming `len` bytes: moved
    /// forward, but clamped so it never passes the write cursor.
    pub open spec fn spec_advanced_pos(&self, len: int) -> int {
        if self.spec_read_pos() + len <= self.spec_filled_pos() {
            self.spec_read_pos() + len
        } else {
            self.spec_filled_pos()
        }
    }

    /// Builds a buffer of capacity `N` with both cursors at the origin. The
    /// region's contents are unspecified: nothing below promises what lies
    /// beyond the write cursor, and the safe operations never expose it.
    pub fn new() -> (r: Self)
        ensures
            r.wf(),
            r.spec_filled_pos() == 0,
            r.spec_read_pos() == 0,
    {
        Self::new_zeroed()
    }

    /// Builds a buffer of capacity `N` whose region is known to hold zeros,
    /// for callers that need deterministic contents from the start.
    pub fn new_zeroed() -> (r: Self)
        ensures
            r.wf(),
            r.spec_filled_pos() == 0,
            r.spec_read_pos() == 0,
            forall|j: int| 0 <= j < N as int ==> r.spec_region()[j] == 0u8,
    {
        let mut chunk: Vec<u8> = Vec::new();
        while chunk.len() < N
            invariant
                chunk@.len() <= N as int,
                forall|j: int| 0 <= j < chunk@.len() ==> chunk@[j] == 0u8,
            decreases N as int - chunk@.len(),
        {
            chunk.push(0u8);
        }
        Buffer { chunk, filled_pos: 0, pos: 0 }
    }

    /// The fixed capacity of the backing region.
    pub fn capacity(&self) -> (r: usize)
        ensures
            r == N,
    {
        N
    }

    /// Resets both cursors to the origin, logically discarding all content.
    /// The bytes themselves stay in the region but become unreachable
    /// through the read window until overwritten.
    pub fn clear(&mut self)
        requires
            old(self).wf(),
        ensures
            final(self).wf(),
            final(self).spec_filled_pos() == 0,
            final(self).spec_read_pos() == 0,
            final(self).spec_region() == old(self).spec_region(),
    {
        self.filled_pos = 0;
        self.pos = 0;
    }

    /// The write cursor's current value.
    pub fn filled_pos(&self) -> (r: usize)
        ensures
            r == self.spec_filled_pos(),
    {
        self.filled_pos
    }

    /// The read cursor's current value.
    pub fn pos(&self) -> (r: usize)
        ensures
            r == self.spec_read_pos(),
    {
        self.pos
    }

    /// Bytes available for further writes before the capacity is reached.
    pub fn remaining_space(&self) -> (r: usize)
        requires
            self.wf(),
        ensures
            r == self.spec_remaining_space(),
    {
        N - self.filled_pos
    }

    /// Bytes available for further reads.
    pub fn remaining(&self) -> (r: usize)
        requires
            self.wf(),
        ensures
            r == self.spec_remaining(),
    {
        self.filled_pos - self.pos
    }

    /// Unchecked append: copies `data` into the region at the write cursor
    /// and advances the cursor past it. The caller must have made sure the
    /// bytes fit; [`Buffer::try_write`] is the checked sibling that turns
    /// the same precondition into a runtime branch.
    pub fn write(&mut self, data: &[u8])
        requires
            old(self).wf(),
            old(self).spec_filled_pos() + data@.len() <= N as int,
        ensures
            final(self).wf(),
            old(self).spec_wrote(data@, *final(self)),
    {
        let ghost pre = *self;
        let start: usize = self.filled_pos;
        let mut i: usize = 0;
        while i < data.len()
            invariant
                pre.wf(),
                0 <= i <= data@.len(),
                start == pre.spec_filled_pos(),
                pre.spec_filled_pos() + data@.len() <= N as int,
                self.filled_pos == pre.filled_pos,
                self.pos == pre.pos,
                self.chunk@.len() == N as int,
                forall|j: int| 0 <= j < i ==> self.chunk@[start + j] == data@[j],
                forall|j: int|
                    0 <= j < N as int && !(start <= j < start + i) ==> self.chunk@[j]
                        == pre.chunk@[j],
            decreases data@.len() - i,
        {
            self.chunk.set(start + i, data[i]);
            i = i + 1;
        }
        self.filled_pos = start + data.len();
        proof {
            assert(self.spec_region() =~= pre.spec_region().take(pre.spec_filled_pos()) + data@
                + pre.spec_region().skip(pre.spec_filled_pos() + data@.len()));
            assert(self.spec_written() =~= pre.spec_written() + data@);
            assert(self.spec_unread() =~= pre.spec_unread() + data@);
        }
    }

    /// Checked append: copies `data` into the region if it fits in the
    /// remaining space and reports [`WriteBufferError::BufferFull`] without
    /// touching the buffer otherwise. All-or-nothing: no partial write.
    pub fn try_write(&mut self, data: &[u8]) -> (r: Result<(), WriteBufferError>)
        requires
            old(self).wf(),
        ensures
            final(self).wf(),
            old(self).spec_filled_pos() + data@.len() <= N as int ==> r is Ok
                && old(self).spec_wrote(data@, *final(self)),
            old(self).spec_filled_pos() + data@.len() > N as int ==> r == Err::<
                (),
                WriteBufferError,
            >(WriteBufferError::BufferFull) && *final(self) == *old(self),
    {
        if data.len() <= N - self.filled_pos {
            self.write(data);
            Ok(())
        } else {
            Err(WriteBufferError::BufferFull)
        }
    }

    /// Checked append of a fixed-size array, the sibling of
    /// [`Buffer::try_write`] for callers whose data length is known at
    /// compile time.
    pub fn try_write_fast<const LEN: usize>(&mut self, data: &[u8; LEN]) -> (r: Result<
        (),
        WriteBufferError,
    >)
        requires
            old(self).wf(),
        ensures
            final(self).wf(),
            old(self).spec_filled_pos() + data@.len() <= N as int ==> r is Ok
                && old(self).spec_wrote(data@, *final(self)),
            old(self).spec_filled_pos() + data@.len() > N as int ==> r == Err::<
                (),
                WriteBufferError,
            >(WriteBufferError::BufferFull) && *final(self) == *old(self),
    {
        self.try_write(data.as_slice())
    }

    /// Checked bulk append: the given slices, concatenated in order, are
    /// appended as one all-or-nothing operation. The total length is
    /// checked up front: if it exceeds the remaining space, the buffer is
    /// left untouched and [`WriteBufferError::BufferFull`] is reported, so
    /// a failure never leaves a partial write behind.
    #[verifier::loop_isolation(false)]
    pub fn try_write_many(&mut self, parts: &[&[u8]]) -> (r: Result<(), WriteBufferError>)
        requires
            old(self).wf(),
        ensures
            final(self).wf(),
            old(self).spec_filled_pos() + spec_concat_slices(parts@).len() <= N as int ==> r is Ok
                && old(self).spec_wrote(spec_concat_slices(parts@), *final(self)),
            old(self).spec_filled_pos() + spec_concat_slices(parts@).len() > N as int ==> r
                == Err::<(), WriteBufferError>(WriteBufferError::BufferFull) && *final(self)
                == *old(self),
    {
        let ghost pv = parts@;
        let space: usize = N - self.filled_pos;
        let mut total: usize = 0;
        let mut i: usize = 0;
        while i < parts.len()
            invariant
                0 <= i <= pv.len(),
                total == spec_concat_slices(pv.take(i as int)).len(),
                total <= space,
            decreases pv.len() - i,
        {
            let part: &[u8] = parts[i];
            proof {
                lemma_concat_slices_snoc(pv, i as int);
            }
            if part.len() > space - total {
                proof {
                    lemma_concat_slices_prefix_le(pv, i as int + 1);
                }
                return Err(WriteBufferError::BufferFull);
            }
            total = total + part.len();
            i = i + 1;
        }
        proof {
            assert(pv.take(pv.len() as int) =~= pv);
        }
        let ghost pre = *self;
        proof {
            assert(pv.take(0) =~= Seq::<&[u8]>::empty());
            assert(pre.spec_region() =~= pre.spec_region().take(pre.spec_filled_pos())
                + spec_concat_slices(pv.take(0)) + pre.spec_region().skip(pre.spec_filled_pos()));
            assert(pre.spec_written() =~= pre.spec_written() + spec_concat_slices(pv.take(0)));
            assert(pre.spec_unread() =~= pre.spec_unread() + spec_concat_slices(pv.take(0)));
        }
        let mut k: usize = 0;
        while k < parts.len()
            invariant
                0 <= k <= pv.len(),
                pre.spec_wrote(spec_concat_slices(pv.take(k as int)), *self),
            decreases pv.len() - k,
        {
            proof {
                lemma_concat_slices_snoc(pv, k as int);
                lemma_concat_slices_prefix_le(pv, k as int + 1);
            }
            let ghost mid = *self;
            self.write(parts[k]);
            proof {
                lemma_wrote_append(
                    pre,
                    mid,
                    *self,
                    spec_concat_slices(pv.take(k as int)),
                    pv[k as int]@,
                );
            }
            k = k + 1;
        }
        Ok(())
    }

    /// Consuming read: yields at most `len` bytes from the front of the
    /// unconsumed window, truncating the request at the end of the written
    /// data rather than failing, and moves the read cursor past them.
    pub fn read(&mut self, len: usize) -> (r: Vec<u8>)
        requires
            old(self).wf(),
        ensures
            final(self).wf(),
            r@ == old(self).spec_read_result(len as int),
            final(self).spec_region() == old(self).spec_region(),
            final(self).spec_filled_pos() == old(self).spec_filled_pos(),
            final(self).spec_read_pos() == old(self).spec_read_pos() + r@.len(),
    {
        let rem: usize = self.filled_pos - self.pos;
        let slice_len: usize = if len <= rem {
            len
        } else {
            rem
        };
        let s: &[u8] = slice_subrange(self.chunk.as_slice(), self.pos, self.pos + slice_len);
        let out: Vec<u8> = slice_to_vec(s);
        self.pos = self.pos + slice_len;
        proof {
            assert(out@ =~= old(self).spec_read_result(len as int));
        }
        out
    }

    /// Non-consuming peek: the same window and truncation as
    /// [`Buffer::read`], but the read cursor stays where it is.
    pub fn get_continuous(&self, len: usize) -> (r: &[u8])
        requires
            self.wf(),
        ensures
            r@ == self.spec_read_result(len as int),
    {
        let rem: usize = self.filled_pos - self.pos;
        let slice_len: usize = if len <= rem {
            len
        } else {
            rem
        };
        let s: &[u8] = slice_subrange(self.chunk.as_slice(), self.pos, self.pos + slice_len);
        proof {
            assert(s@ =~= self.spec_read_result(len as int));
        }
        s
    }

    /// The whole unconsumed window, without consuming it.
    pub fn as_slice(&self) -> (r: &[u8])
        requires
            self.wf(),
        ensures
            r@ == self.spec_unread(),
    {
        let rem: usize = self.filled_pos - self.pos;
        let r: &[u8] = self.get_continuous(rem);
        proof {
            assert(r@ =~= self.spec_unread());
        }
        r
    }

    /// Consumes `len` bytes without producing them: moves the read cursor
    /// forward, clamped so it never passes the write cursor.
    pub fn advance(&mut self, len: usize)
        requires
            old(self).wf(),
        ensures
            final(self).wf(),
            final(self).spec_region() == old(self).spec_region(),
            final(self).spec_filled_pos() == old(self).spec_filled_pos(),
            final(self).spec_read_pos() == old(self).spec_advanced_pos(len as int),
    {
        let rem: usize = self.filled_pos - self.pos;
        if len >= rem {
            self.pos = self.filled_pos;
        } else {
            self.pos = self.pos + len;
        }
    }

    /// Moves the write cursor directly. The caller vouches that everything
    /// up to `filled_pos` holds bytes it considers written; the region
    /// itself is not touched.
    pub fn set_filled_pos(&mut self, filled_pos: usize)
        requires
            old(self).wf(),
            old(self).spec_read_pos() <= filled_pos <= N as int,
        ensures
            final(self).wf(),
            final(self).spec_filled_pos() == filled_pos,
            final(self).spec_read_pos() == old(self).spec_read_pos(),
            final(self).spec_region() == old(self).spec_region(),
    {
        self.filled_pos = filled_pos;
    }

    /// Moves the read cursor directly, anywhere up to the write cursor.
    pub fn set_pos(&mut self, pos: usize)
        requires
            old(self).wf(),
            pos <= old(self).spec_filled_pos(),
        ensures
            final(self).wf(),
            final(self).spec_read_pos() == pos,
            final(self).spec_filled_pos() == old(self).spec_filled_pos(),
            final(self).spec_region() == old(self).spec_region(),
    {
        self.pos = pos;
    }

    /// Accepts the bytes an external source produced for this buffer's
    /// unfilled space. A source that produced nothing is reported as
    /// [`FillError::SourceExhausted`] and leaves the buffer unchanged;
    /// otherwise the bytes are appended as by [`Buffer::write`].
    pub fn fill_from(&mut self, produced: &[u8]) -> (r: Result<(), FillError>)
        requires
            old(self).wf(),
            produced@.len() <= old(self).spec_remaining_space(),
        ensures
            final(self).wf(),
            produced@.len() == 0 ==> r == Err::<(), FillError>(FillError::SourceExhausted)
                && *final(self) == *old(self),
            produced@.len() > 0 ==> r is Ok && old(self).spec_wrote(produced@, *final(self)),
    {
        if produced.len() == 0 {
            Err(FillError::SourceExhausted)
        } else {
            self.write(produced);
            Ok(())
        }
    }

    /// Renders the unconsumed window the way a debug formatter renders a
    /// byte slice: decimal values, comma-separated, in square brackets.
    pub fn debug_string(&self) -> (r: String)
        requires
            self.wf(),
        ensures
            r@ == spec_debug_render(self.spec_unread()),
    {
        let ghost u = self.spec_unread();
        let mut out: String = String::new();
        out.append("[");
        proof {
            reveal_strlit("[");
            assert(out@ =~= seq!['['] + spec_debug_items(u.take(0)));
        }
        let mut i: usize = self.pos;
        while i < self.filled_pos
            invariant
                self.wf(),
                u == self.spec_unread(),
                self.spec_read_pos() <= i <= self.spec_filled_pos(),
                out@ == seq!['['] + spec_debug_items(u.take(i - self.spec_read_pos())),
            decreases self.spec_filled_pos() - i,
        {
            if i > self.pos {
                out.append(", ");
            }
            let b: u8 = self.chunk[i];
            push_byte_decimal(&mut out, b);
            proof {
                reveal_strlit(", ");
                let k: int = i - self.spec_read_pos();
                assert(u[k] == b);
                assert(u.take(k + 1).drop_last() =~= u.take(k));
                assert(u.take(k + 1).last() == u[k]);
                assert(out@ =~= seq!['['] + spec_debug_items(u.take(k + 1)));
            }
            i = i + 1;
        }
        out.append("]");
        proof {
            reveal_strlit("]");
            assert(u.take(u.len() as int) =~= u);
            assert(out@ =~= spec_debug_render(u));
        }
        out
    }
}

impl<const N: usize> Clone for Buffer<N> {
    /// A clone carries the same region and the same cursors as the
    /// original, so everything observable of the one holds of the other;
    /// in particular a clone of a well-formed buffer is well-formed.
    fn clone(&self) -> (r: Self)
        ensures
            r.spec_region() == self.spec_region(),
            r.spec_filled_pos() == self.spec_filled_pos(),
            r.spec_read_pos() == self.spec_read_pos(),
            self.wf() ==> r.wf(),
    {
        let chunk: Vec<u8> = self.chunk.clone();
        proof {
            assert(chunk@ =~= self.chunk@);
        }
        Buffer { chunk, filled_pos: self.filled_pos, pos: self.pos }
    }
}

/// The concatenation, in order, of the byte slices of `parts`.
pub open spec fn spec_concat_slices(parts: Seq<&[u8]>) -> Seq<u8>
    decreases parts.len(),
{
    if parts.len() == 0 {
        Seq::empty()
    } else {
        spec_concat_slices(parts.drop_last()) + parts.last()@
    }
}

/// Extending a prefix of `parts` by one more slice extends its
/// concatenation by that slice's bytes.
proof fn lemma_concat_slices_snoc(parts: Seq<&[u8]>, k: int)
    requires
        0 <= k < parts.len(),
    ensures
        spec_concat_slices(parts.take(k + 1)) == spec_concat_slices(parts.take(k)) + parts[k]@,
{
    assert(parts.take(k + 1).drop_last() =~= parts.take(k));
    assert(parts.take(k + 1).last() == parts[k]);
}

/// The concatenation of a prefix of `parts` is never longer than the
/// concatenation of all of `parts`.
proof fn lemma_concat_slices_prefix_le(parts: Seq<&[u8]>, k: int)
    requires
        0 <= k <= parts.len(),
    ensures
        spec_concat_slices(parts.take(k)).len() <= spec_concat_slices(parts).len(),
    decreases parts.len() - k,
{
    if k == parts.len() {
        assert(parts.take(k) =~= parts);
    } else {
        lemma_concat_slices_snoc(parts, k);
        lemma_concat_slices_prefix_le(parts, k + 1);
    }
}

/// Two consecutive appends amount to one append of the concatenation.
proof fn lemma_wrote_append<const N: usize>(
    pre: Buffer<N>,
    mid: Buffer<N>,
    post: Buffer<N>,
    a: Seq<u8>,
    b: Seq<u8>,
)
    requires
        pre.wf(),
        pre.spec_wrote(a, mid),
        mid.spec_wrote(b, post),
    ensures
        pre.spec_wrote(a + b, post),
{
    assert(post.spec_region() =~= pre.spec_region().take(pre.spec_filled_pos()) + (a + b)
        + pre.spec_region().skip(pre.spec_filled_pos() + (a + b).len()));
    assert(post.spec_written() =~= pre.spec_written() + (a + b));
    assert(post.spec_unread() =~= pre.spec_unread() + (a + b));
}

/// The decimal digit character for a value below ten.
pub open spec fn spec_decimal_digit(d: int) -> char {
    if d == 0 {
        '0'
    } else if d == 1 {
        '1'
    } else if d == 2 {
        '2'
    } else if d == 3 {
        '3'
    } else if d == 4 {
        '4'
    } else if d == 5 {
        '5'
    } else if d == 6 {
        '6'
    } else if d == 7 {
        '7'
    } else if d == 8 {
        '8'
    } else {
        '9'
    }
}

/// The decimal rendering of one byte, without leading zeros.
pub open spec fn spec_byte_decimal(b: u8) -> Seq<char> {
    let v = b as int;
    if v < 10 {
        seq![spec_decimal_digit(v)]
    } else if v < 100 {
        seq![spec_decimal_digit(v / 10), spec_decimal_digit(v % 10)]
    } else {
        seq![
            spec_decimal_digit(v / 100),
            spec_decimal_digit((v / 10) % 10),
            spec_decimal_digit(v % 10),
        ]
    }
}

/// The bytes of a window rendered in decimal and separated by commas.
pub open spec fn spec_debug_items(s: Seq<u8>) -> Seq<char>
    decreases s.len(),
{
    if s.len() == 0 {
        Seq::empty()
    } else if s.len() == 1 {
        spec_byte_decimal(s[0])
    } else {
        spec_debug_items(s.drop_last()) + seq![',', ' '] + spec_byte_decimal(s.last())
    }
}

/// A window of bytes rendered the way a debug formatter renders a byte
/// slice: the decimal items between square brackets.
pub open spec fn spec_debug_render(s: Seq<u8>) -> Seq<char> {
    seq!['['] + spec_debug_items(s) + seq![']']
}

/// The one-character string for a decimal digit.
fn decimal_digit_str(d: u8) -> (r: &'static str)
    requires
        d < 10,
    ensures
        r@.len() == 1,
        r@[0] == spec_decimal_digit(d as int),
{
    proof {
        reveal_strlit("0");
        reveal_strlit("1");
        reveal_strlit("2");
        reveal_strlit("3");
        reveal_strlit("4");
        reveal_strlit("5");
        reveal_strlit("6");
        reveal_strlit("7");
        reveal_strlit("8");
        reveal_strlit("9");
    }
    if d == 0 {
        "0"
    } else if d == 1 {
        "1"
    } else if d == 2 {
        "2"
    } else if d == 3 {
        "3"
    } else if d == 4 {
        "4"
    } else if d == 5 {
        "5"
    } else if d == 6 {
        "6"
    } else if d == 7 {
        "7"
    } else if d == 8 {
        "8"
    } else {
        "9"
    }
}

/// Appends the decimal rendering of one byte to `out`.
fn push_byte_decimal(out: &mut String, b: u8)
    ensures
        final(out)@ == old(out)@ + spec_byte_decimal(b),
{
    if b < 10 {
        out.append(decimal_digit_str(b));
        proof {
            assert(out@ =~= old(out)@ + spec_byte_decimal(b));
        }
    } else if b < 100 {
        out.append(decimal_digit_str(b / 10));
        out.append(decimal_digit_str(b % 10));
        proof {
            assert(out@ =~= old(out)@ + spec_byte_decimal(b));
        }
    } else {
        out.append(decimal_digit_str(b / 100));
        out.append(decimal_digit_str((b / 10) % 10));
        out.append(decimal_digit_str(b % 10));
        proof {
            assert(out@ =~= old(out)@ + spec_byte_decimal(b));
        }
    }
}

/// The cursor invariant: a well-formed buffer keeps its read cursor at or
/// before its write cursor, and both within the fixed capacity. Every
/// operation above requires `wf` of the buffer it starts from and
/// re-establishes it, so the bounds hold after any sequence of operations
/// on a freshly built buffer.
pub proof fn lemma_cursor_bounds<const N: usize>(b: &Buffer<N>)
    requires
        b.wf(),
    ensures
        0 <= b.spec_read_pos() <= b.spec_filled_pos() <= N as int,
{
}

/// Round trip: appending `data` to a buffer with nothing left unread and
/// then reading `data.len()` bytes yields exactly `data`. (With bytes still
/// unread before the append, a read returns those older bytes first.)
pub proof fn lemma_write_read_round_trip<const N: usize>(
    pre: Buffer<N>,
    post: Buffer<N>,
    data: Seq<u8>,
)
    requires
        pre.wf(),
        pre.spec_remaining() == 0,
        pre.spec_wrote(data, post),
    ensures
        post.spec_read_result(data.len() as int) == data,
{
    assert(pre.spec_unread() =~= Seq::<u8>::empty());
    assert(post.spec_unread() =~= data);
    assert(post.spec_read_result(data.len() as int) =~= data);
}

/// Capacity boundary: appending exactly `N` bytes to an empty buffer is
/// within the checked write's success condition, leaves no remaining space,
/// and afterwards no append of even a single byte fits, so a checked write
/// of one more byte reports `BufferFull` and leaves the state unchanged.
pub proof fn lemma_capacity_boundary<const N: usize>(
    pre: Buffer<N>,
    post: Buffer<N>,
    data: Seq<u8>,
)
    requires
        pre.wf(),
        pre.spec_filled_pos() == 0,
        data.len() == N as int,
        pre.spec_wrote(data, post),
    ensures
        pre.spec_filled_pos() + data.len() <= N as int,
        post.spec_remaining_space() == 0,
        forall|extra: Seq<u8>|
            extra.len() > 0 ==> post.spec_filled_pos() + extra.len() > N as int,
{
}

/// Truncating read: a request for more bytes than remain unread yields
/// exactly the remaining bytes rather than an error, and moves the read
/// cursor to the write cursor, leaving nothing unread.
pub proof fn lemma_truncating_read<const N: usize>(b: Buffer<N>, len: int)
    requires
        b.wf(),
        len >= b.spec_remaining(),
    ensures
        b.spec_read_result(len) == b.spec_unread(),
        b.spec_read_result(len).len() == b.spec_remaining(),
        b.spec_read_pos() + b.spec_read_result(len).len() == b.spec_filled_pos(),
{
    assert(b.spec_read_result(len) =~= b.spec_unread());
}

/// Clear idempotence: clearing an already-empty buffer changes nothing
/// observable. The cursors were at the origin and stay there, the region is
/// untouched, so the remaining space is the whole capacity and nothing is
/// unread, exactly as before.
pub proof fn lemma_clear_idempotent<const N: usize>(pre: Buffer<N>, post: Buffer<N>)
    requires
        pre.wf(),
        pre.spec_filled_pos() == 0,
        pre.spec_read_pos() == 0,
        post.wf(),
        post.spec_filled_pos() == 0,
        post.spec_read_pos() == 0,
        post.spec_region() == pre.spec_region(),
    ensures
        post.spec_remaining_space() == N as int,
        post.spec_remaining() == 0,
        post.spec_written() == pre.spec_written(),
        post.spec_unread() == pre.spec_unread(),
{
}

/// Advance clamping: consuming more bytes than remain unread parks the read
/// cursor exactly on the write cursor, never beyond it.
pub proof fn lemma_advance_clamps<const N: usize>(b: Buffer<N>, len: int)
    requires
        b.wf(),
        len > b.spec_remaining(),
    ensures
        b.spec_advanced_pos(len) == b.spec_filled_pos(),
{
}

} // verus!
