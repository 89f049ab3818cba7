use fastbuf::Buffer;
use fastbuf::FastSlice;
use fastbuf::FillError;
use fastbuf::WriteBufferError;

#[test]
fn capacity_boundary_exact_fill() {
    let mut buffer: Buffer<4> = Buffer::new();
    assert!(buffer.try_write(b"abcd").is_ok());
    assert_eq!(buffer.remaining_space(), 0);

    let result = buffer.try_write(b"e");
    assert!(matches!(result, Err(WriteBufferError::BufferFull)));
    assert_eq!(buffer.remaining_space(), 0);
    assert_eq!(buffer.remaining(), 4);
}

#[test]
fn truncating_read_returns_remaining() {
    let mut buffer: Buffer<16> = Buffer::new();
    buffer.write(b"abc");
    let out = buffer.read(10);
    assert_eq!(out, b"abc");
    assert_eq!(buffer.remaining(), 0);
}

#[test]
fn read_from_empty_is_empty() {
    let mut buffer: Buffer<16> = Buffer::new();
    let out = buffer.read(4);
    assert_eq!(out.len(), 0);
    assert_eq!(buffer.remaining(), 0);
}

#[test]
fn clear_on_empty_is_noop() {
    let mut buffer: Buffer<16> = Buffer::new();
    buffer.clear();
    assert_eq!(buffer.remaining_space(), buffer.capacity());
    assert_eq!(buffer.remaining(), 0);
    buffer.clear();
    assert_eq!(buffer.remaining_space(), 16);
    assert_eq!(buffer.remaining(), 0);
}

#[test]
fn advance_clamps_at_filled_pos() {
    let mut buffer: Buffer<16> = Buffer::new();
    buffer.write(b"abc");
    buffer.advance(10);
    assert_eq!(buffer.pos(), buffer.filled_pos());
    assert_eq!(buffer.remaining(), 0);
}

#[test]
fn cursors_stay_in_bounds() {
    let mut buffer: Buffer<8> = Buffer::new();
    buffer.write(b"abcde");
    let _ = buffer.read(2);
    buffer.advance(99);
    let _ = buffer.try_write(b"fgh");
    let _ = buffer.try_write(b"toolongtofit");
    buffer.clear();
    assert!(buffer.pos() <= buffer.filled_pos());
    assert!(buffer.filled_pos() <= buffer.capacity());
}

#[test]
fn write_round_trip_via_as_slice() {
    let mut buffer: Buffer<8> = Buffer::new();
    buffer.write(b"pq");
    buffer.write(b"rs");
    assert_eq!(buffer.as_slice(), b"pqrs");
    assert_eq!(buffer.read(4), b"pqrs");
}

#[test]
fn fill_from_empty_is_source_exhausted() {
    let mut buffer: Buffer<8> = Buffer::new();
    let result = buffer.fill_from(b"");
    assert!(matches!(result, Err(FillError::SourceExhausted)));
    assert_eq!(buffer.remaining_space(), 8);
    assert_eq!(buffer.remaining(), 0);
}

#[test]
fn fill_from_appends_produced_bytes() {
    let mut buffer: Buffer<8> = Buffer::new();
    buffer.write(b"ab");
    let result = buffer.fill_from(b"cde");
    assert!(result.is_ok());
    assert_eq!(buffer.remaining(), 5);
    assert_eq!(buffer.read(5), b"abcde");
}

#[test]
fn set_pos_rewinds_reading() {
    let mut buffer: Buffer<16> = Buffer::new();
    buffer.write(b"hello");
    assert_eq!(buffer.read(5), b"hello");
    buffer.set_pos(0);
    assert_eq!(buffer.read(5), b"hello");
}

#[test]
fn set_filled_pos_exposes_zeroed_region() {
    let mut buffer: Buffer<4> = Buffer::new_zeroed();
    buffer.set_filled_pos(4);
    assert_eq!(buffer.read(4), [0u8, 0u8, 0u8, 0u8].as_slice());
}

#[test]
fn getters_track_cursors() {
    let mut buffer: Buffer<16> = Buffer::new();
    assert_eq!(buffer.capacity(), 16);
    assert_eq!(buffer.filled_pos(), 0);
    assert_eq!(buffer.pos(), 0);
    buffer.write(b"abcdef");
    let _ = buffer.read(2);
    assert_eq!(buffer.filled_pos(), 6);
    assert_eq!(buffer.pos(), 2);
}

#[test]
fn debug_string_empty_window() {
    let buffer: Buffer<8> = Buffer::new();
    assert_eq!(buffer.debug_string(), "[]");
}

#[test]
fn debug_string_digit_widths() {
    let mut buffer: Buffer<8> = Buffer::new();
    buffer.write(&[0u8, 7u8, 42u8, 255u8]);
    assert_eq!(buffer.debug_string(), "[0, 7, 42, 255]");
}

#[test]
fn debug_string_skips_consumed_bytes() {
    let mut buffer: Buffer<8> = Buffer::new();
    buffer.write(&[1u8, 2u8, 3u8]);
    buffer.advance(1);
    assert_eq!(buffer.debug_string(), "[2, 3]");
}

#[test]
fn peek_does_not_consume() {
    let mut buffer: Buffer<16> = Buffer::new();
    buffer.write(b"abcd");
    assert_eq!(buffer.get_continuous(2), b"ab");
    assert_eq!(buffer.get_continuous(99), b"abcd");
    assert_eq!(buffer.remaining(), 4);
    assert_eq!(buffer.read(2), b"ab");
}

#[test]
fn write_empty_slice_changes_nothing() {
    let mut buffer: Buffer<4> = Buffer::new();
    buffer.write(b"");
    assert_eq!(buffer.remaining_space(), 4);
    assert!(buffer.try_write(b"abcd").is_ok());
    assert!(buffer.try_write(b"").is_ok());
    assert_eq!(buffer.remaining_space(), 0);
}

#[test]
fn try_write_many_concatenates_in_order() {
    let mut buffer: Buffer<8> = Buffer::new();
    let parts: [&[u8]; 3] = [b"ab", b"c", b"de"];
    assert!(buffer.try_write_many(&parts).is_ok());
    assert_eq!(buffer.remaining_space(), 3);
    assert_eq!(buffer.read(5), b"abcde");
}

#[test]
fn try_write_many_rejects_whole_batch_up_front() {
    let mut buffer: Buffer<4> = Buffer::new();
    buffer.write(b"a");
    let parts: [&[u8]; 2] = [b"bc", b"de"];
    let result = buffer.try_write_many(&parts);
    assert!(matches!(result, Err(WriteBufferError::BufferFull)));
    assert_eq!(buffer.remaining_space(), 3);
    assert_eq!(buffer.read(4), b"a");
}

#[test]
fn try_write_many_accepts_empty_batch() {
    let mut buffer: Buffer<2> = Buffer::new();
    let parts: [&[u8]; 0] = [];
    assert!(buffer.try_write_many(&parts).is_ok());
    assert_eq!(buffer.remaining_space(), 2);
}

#[test]
fn fast_slice_new_is_empty() {
    let handle: FastSlice<u8> = FastSlice::new();
    handle.next();
    assert_eq!(handle.data.len(), 0);
}

#[test]
fn fast_slice_next_changes_nothing() {
    let data: &[u8] = b"xyz";
    let handle = FastSlice::from(data);
    handle.next();
    handle.next();
    assert_eq!(handle.data, b"xyz");
}
