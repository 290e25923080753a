use media_io::error::StreamError;
use media_io::memory::MemorySource;
use media_io::source::{offset_by, MediaSource, SeekFrom};
use media_io::capacity::{INIT_CAPACITY, MAX_CAPACITY};
use media_io::stream::MediaSourceStream;
use media_io::view::Refill;

fn counting(n: usize) -> Vec<u8> {
    let mut v = Vec::with_capacity(n);
    for i in 0..n {
        v.push((i % 251) as u8);
    }
    v
}

fn stream_over(n: usize) -> MediaSourceStream<MemorySource> {
    MediaSourceStream::new(MemorySource::new(counting(n)))
}

#[test]
fn it_works() {
    assert_eq!(2 + 2, 4);
}

#[test]
fn ten_byte_walkthrough() {
    let mut s = stream_over(10);
    for i in 0..4u8 {
        assert_eq!(s.read_byte(), Ok(i));
    }
    assert_eq!(s.pos(), 4);
    assert_eq!(s.rewind(2), 2);
    assert_eq!(s.pos(), 2);
    assert_eq!(s.read_byte(), Ok(2));
    assert_eq!(s.read_byte(), Ok(3));
    let mut six = [0u8; 6];
    assert_eq!(s.read_buf_exact(&mut six), Ok(()));
    assert_eq!(six, [4, 5, 6, 7, 8, 9]);
    let mut one = [0u8; 1];
    assert_eq!(s.read_buf_exact(&mut one), Err(StreamError::EndOfStream));
}

#[test]
fn seek_to_five_then_read_five() {
    let mut s = stream_over(10);
    assert_eq!(s.read_byte(), Ok(0));
    assert_eq!(s.seek(SeekFrom::Start(5)), Ok(5));
    assert_eq!(s.pos(), 5);
    assert_eq!(s.rewindable_bytes(), 0);
    assert_eq!(s.buffered_bytes(), 0);
    let mut five = [0u8; 5];
    assert_eq!(s.read(&mut five), Ok(5));
    assert_eq!(five, [5, 6, 7, 8, 9]);
}

#[test]
fn fresh_stream_is_empty() {
    let s = stream_over(10);
    assert_eq!(s.pos(), 0);
    assert_eq!(s.buffered_bytes(), 0);
    assert_eq!(s.rewindable_bytes(), 0);
    assert_eq!(s.refill_plan(), Refill::Fill { amount: INIT_CAPACITY });
    assert!(s.is_seekable());
    assert_eq!(s.len(), Some(10));
}

#[test]
fn rewind_beyond_window_moves_nothing() {
    let mut s = stream_over(10);
    assert_eq!(s.read_byte(), Ok(0));
    assert_eq!(s.read_byte(), Ok(1));
    assert_eq!(s.read_byte(), Ok(2));
    assert_eq!(s.rewindable_bytes(), 3);
    assert_eq!(s.rewind(4), 0);
    assert_eq!(s.pos(), 3);
    assert_eq!(s.rewind(3), 3);
    assert_eq!(s.pos(), 0);
    assert_eq!(s.rewind(1), 0);
    assert_eq!(s.rewind(0), 0);
    assert_eq!(s.pos(), 0);
}

#[test]
fn rewind_round_trip_reproduces_bytes() {
    let data = counting(5000);
    let mut s = stream_over(5000);
    let mut first = vec![0u8; 1500];
    assert_eq!(s.read(&mut first), Ok(1500));
    assert_eq!(&first[..], &data[..1500]);
    assert_eq!(s.rewind(700), 700);
    assert_eq!(s.pos(), 800);
    let mut again = vec![0u8; 700];
    assert_eq!(s.read(&mut again), Ok(700));
    assert_eq!(&again[..], &first[800..]);
    assert_eq!(s.pos(), 1500);
}

#[test]
fn rewind_into_the_older_generation_and_catch_up() {
    let data = counting(5000);
    let mut s = stream_over(5000);
    assert_eq!(s.ignore_bytes(1034), Ok(()));
    assert_eq!(s.pos(), 1034);
    assert_eq!(s.rewindable_bytes(), 1034);
    assert_eq!(s.buffered_bytes(), 2048 - 10);
    assert_eq!(s.rewind(20), 20);
    assert_eq!(s.pos(), 1014);
    assert_eq!(s.rewindable_bytes(), 1014);
    assert_eq!(s.buffered_bytes(), 2048 + 10);
    let mut out = [0u8; 30];
    assert_eq!(s.read_buf_exact(&mut out), Ok(()));
    assert_eq!(&out[..], &data[1014..1044]);
    assert_eq!(s.pos(), 1044);
}

#[test]
fn catch_up_is_planned_at_the_end_of_the_older_generation() {
    let mut s = stream_over(5000);
    assert_eq!(s.ignore_bytes(1030), Ok(()));
    assert_eq!(s.rewind(6), 6);
    assert_eq!(s.refill_plan(), Refill::Ready);
    assert_eq!(s.rewind(4), 4);
    assert_eq!(s.refill_plan(), Refill::Ready);
    assert_eq!(s.read_quad_bytes().unwrap().to_vec(), counting(1024)[1020..].to_vec());
    assert_eq!(s.refill_plan(), Refill::CatchUp);
    assert_eq!(s.buffered_bytes(), 2048);
    assert_eq!(s.fetch_buffer().map(|b| b.len()), Ok(2048));
    assert_eq!(s.refill_plan(), Refill::Ready);
    assert_eq!(s.pos(), 1024);
}

#[test]
fn fixed_width_reads_cross_generations() {
    let data = counting(4000);
    let mut s = stream_over(4000);
    assert_eq!(s.ignore_bytes(1023), Ok(()));
    assert_eq!(s.read_double_bytes(), Ok([data[1023], data[1024]]));
    assert_eq!(s.seek(SeekFrom::Start(1022)), Ok(1022));
    assert_eq!(s.ignore_bytes(1022), Ok(()));
    assert_eq!(s.read_triple_bytes(), Ok([data[2044], data[2045], data[2046]]));
    assert_eq!(s.read_quad_bytes(), Ok([data[2047], data[2048], data[2049], data[2050]]));
    assert_eq!(s.read_double_bytes(), Ok([data[2051], data[2052]]));
    assert_eq!(s.pos(), 2053);
}

#[test]
fn fixed_width_reads_fail_at_the_end() {
    let mut s = stream_over(5);
    assert_eq!(s.read_quad_bytes(), Ok([0, 1, 2, 3]));
    assert_eq!(s.read_double_bytes(), Err(StreamError::EndOfStream));
    assert_eq!(s.pos(), 5);
    assert_eq!(s.read_byte(), Err(StreamError::EndOfStream));
    assert_eq!(s.read_triple_bytes(), Err(StreamError::EndOfStream));
    assert_eq!(s.rewind(1), 1);
    assert_eq!(s.read_byte(), Ok(4));
}

#[test]
fn bytewise_and_bulk_reads_agree() {
    let n = 3000;
    let data = counting(n);
    let mut a = stream_over(n);
    let mut b = stream_over(n);
    let mut bulk = vec![0u8; n];
    assert_eq!(a.read(&mut bulk), Ok(n));
    let mut single = Vec::new();
    for _ in 0..n {
        single.push(b.read_byte().unwrap());
    }
    assert_eq!(bulk, single);
    assert_eq!(bulk, data);
    assert_eq!(a.pos(), b.pos());
}

#[test]
fn bulk_read_stops_at_the_end_of_the_source() {
    let mut s = stream_over(10);
    let mut buf = [0xffu8; 16];
    assert_eq!(s.read_buf(&mut buf), Ok(10));
    assert_eq!(&buf[..10], &counting(10)[..]);
    assert_eq!(&buf[10..], &[0xffu8; 6]);
    let mut marked = [0xeeu8; 4];
    assert_eq!(s.read_buf(&mut marked), Ok(0));
    assert_eq!(s.read(&mut marked), Ok(0));
    assert_eq!(marked, [0xeeu8; 4]);
    assert_eq!(s.pos(), 10);
    let mut none = [0u8; 0];
    assert_eq!(s.read(&mut none), Ok(0));
    assert_eq!(s.read_buf_exact(&mut marked), Err(StreamError::EndOfStream));
    assert_eq!(s.read_buf_exact(&mut none), Ok(()));
}

#[test]
fn best_effort_read_of_an_empty_source() {
    let mut s = stream_over(0);
    let mut buf = [7u8; 3];
    assert_eq!(s.read(&mut buf), Ok(0));
    assert_eq!(buf, [7u8; 3]);
    assert_eq!(s.pos(), 0);
    assert_eq!(s.read_byte(), Err(StreamError::EndOfStream));
}

#[test]
fn exact_read_consumes_what_was_left() {
    let mut s = stream_over(10);
    assert_eq!(s.ignore_bytes(7), Ok(()));
    let mut buf = [0u8; 5];
    assert_eq!(s.read_buf_exact(&mut buf), Err(StreamError::EndOfStream));
    assert_eq!(s.pos(), 10);
    assert_eq!(&buf[..3], &[7, 8, 9]);
}

#[test]
fn skipping_past_the_end_fails() {
    let mut s = stream_over(100);
    assert_eq!(s.ignore_bytes(0), Ok(()));
    assert_eq!(s.ignore_bytes(100), Ok(()));
    assert_eq!(s.pos(), 100);
    assert_eq!(s.ignore_bytes(1), Err(StreamError::EndOfStream));
    let mut t = stream_over(100);
    assert_eq!(t.ignore_bytes(101), Err(StreamError::EndOfStream));
    assert_eq!(t.pos(), 100);
}

#[test]
fn capacity_doubles_up_to_the_maximum() {
    let total = 200_000;
    let mut s = stream_over(total);
    let mut capacity = INIT_CAPACITY;
    let mut previous = 0;
    let mut consumed: u64 = 0;
    let mut requested = Vec::new();
    assert_eq!(s.refill_plan(), Refill::Fill { amount: INIT_CAPACITY });
    for _ in 0..8 {
        assert_eq!(s.read_byte().map(|_| ()), Ok(()));
        assert_eq!(s.buffered_bytes(), capacity as u64 - 1);
        assert_eq!(s.ignore_bytes(capacity as u64 - 1), Ok(()));
        consumed += capacity as u64;
        assert_eq!(s.pos(), consumed);
        assert_eq!(s.rewindable_bytes(), (previous + capacity) as u64);
        let next = if capacity * 2 < MAX_CAPACITY { capacity * 2 } else { MAX_CAPACITY };
        assert_eq!(s.refill_plan(), Refill::Grow { amount: next });
        requested.push(next);
        previous = capacity;
        capacity = next;
    }
    assert_eq!(requested, vec![2048, 4096, 8192, 16384, 32768, 32768, 32768, 32768]);
}

#[test]
fn seek_resets_the_capacity() {
    let mut s = stream_over(10_000);
    assert_eq!(s.ignore_bytes(1024), Ok(()));
    assert_eq!(s.refill_plan(), Refill::Grow { amount: 2048 });
    assert_eq!(s.read_byte(), Ok((1024 % 251) as u8));
    assert_eq!(s.seek(SeekFrom::Start(100)), Ok(100));
    assert_eq!(s.refill_plan(), Refill::Fill { amount: INIT_CAPACITY });
    assert_eq!(s.read_byte(), Ok(100));
    assert_eq!(s.buffered_bytes(), 1023);
}

#[test]
fn relative_seek_counts_from_the_cursor() {
    let mut s = stream_over(100);
    assert_eq!(s.ignore_bytes(10), Ok(()));
    assert_eq!(s.buffered_bytes(), 90);
    assert_eq!(s.seek(SeekFrom::Current(0)), Ok(10));
    assert_eq!(s.buffered_bytes(), 90);
    assert_eq!(s.seek(SeekFrom::Current(5)), Ok(15));
    assert_eq!(s.pos(), 15);
    assert_eq!(s.buffered_bytes(), 0);
    assert_eq!(s.rewindable_bytes(), 0);
    assert_eq!(s.read_byte(), Ok(15));
    assert_eq!(s.seek(SeekFrom::Current(-6)), Ok(10));
    assert_eq!(s.read_byte(), Ok(10));
    assert_eq!(s.seek(SeekFrom::End(-1)), Ok(99));
    assert_eq!(s.read_byte(), Ok(99));
    assert_eq!(s.read_byte(), Err(StreamError::EndOfStream));
}

#[test]
fn refused_seeks_change_nothing() {
    let mut s = stream_over(100);
    assert_eq!(s.ignore_bytes(10), Ok(()));
    assert_eq!(s.seek(SeekFrom::Current(-11)), Err(StreamError::InvalidInput));
    assert_eq!(s.seek(SeekFrom::End(-101)), Err(StreamError::InvalidInput));
    assert_eq!(s.seek(SeekFrom::Current(i64::MIN)), Err(StreamError::InvalidInput));
    assert_eq!(s.pos(), 10);
    assert_eq!(s.buffered_bytes(), 90);
    assert_eq!(s.rewindable_bytes(), 10);
    assert_eq!(s.read_byte(), Ok(10));
}

#[test]
fn unseekable_source_refuses_seeks() {
    let mut s = MediaSourceStream::new(MemorySource::unseekable(counting(10)));
    assert!(!s.is_seekable());
    assert_eq!(s.read_byte(), Ok(0));
    assert_eq!(s.seek(SeekFrom::Start(5)), Err(StreamError::Unsupported));
    assert_eq!(s.seek(SeekFrom::Current(0)), Ok(1));
    assert_eq!(s.read_byte(), Ok(1));
    assert_eq!(s.rewind(2), 2);
    assert_eq!(s.read_byte(), Ok(0));
}

#[test]
fn seek_past_the_end_reads_nothing() {
    let mut s = stream_over(10);
    assert_eq!(s.seek(SeekFrom::Start(20)), Ok(20));
    assert_eq!(s.pos(), 20);
    assert_eq!(s.fetch_buffer().map(|b| b.len()), Ok(0));
    assert_eq!(s.fetch_buffer_or_eof(), Err(StreamError::EndOfStream));
    assert_eq!(s.read_byte(), Err(StreamError::EndOfStream));
}

#[test]
fn stream_on_a_source_that_was_read_before() {
    let mut source = MemorySource::new(counting(10));
    let mut skip = [0u8; 3];
    assert_eq!(source.read(&mut skip), Ok(3));
    let mut s = MediaSourceStream::new(source);
    assert_eq!(s.pos(), 0);
    assert_eq!(s.read_byte(), Ok(3));
    assert_eq!(s.pos(), 1);
    assert_eq!(s.seek(SeekFrom::Current(2)), Ok(6));
    assert_eq!(s.read_byte(), Ok(6));
}

#[test]
fn memory_source_reads_and_seeks() {
    let mut source = MemorySource::new(counting(10));
    assert_eq!(source.len(), Some(10));
    assert!(source.is_seekable());
    let mut buf = [0u8; 4];
    assert_eq!(source.read(&mut buf), Ok(4));
    assert_eq!(buf, [0, 1, 2, 3]);
    assert_eq!(source.seek(SeekFrom::Current(-2)), Ok(2));
    assert_eq!(source.seek(SeekFrom::End(-3)), Ok(7));
    let mut rest = [9u8; 4];
    assert_eq!(source.read(&mut rest), Ok(3));
    assert_eq!(rest, [7, 8, 9, 9]);
    assert_eq!(source.read(&mut rest), Ok(0));
    assert_eq!(source.seek(SeekFrom::Start(0)), Ok(0));
    assert_eq!(source.seek(SeekFrom::Current(-1)), Err(StreamError::InvalidInput));
    assert_eq!(source.seek(SeekFrom::End(5)), Ok(15));
    assert_eq!(source.read(&mut rest), Ok(0));
    let mut fixed = MemorySource::unseekable(counting(3));
    assert!(!fixed.is_seekable());
    assert_eq!(fixed.seek(SeekFrom::Start(1)), Err(StreamError::Unsupported));
}

#[test]
fn offsets_move_within_range_only() {
    assert_eq!(offset_by(10, 5), Some(15));
    assert_eq!(offset_by(10, -10), Some(0));
    assert_eq!(offset_by(10, -11), None);
    assert_eq!(offset_by(u64::MAX, 1), None);
    assert_eq!(offset_by(u64::MAX, i64::MIN), Some(u64::MAX - (1u64 << 63)));
    assert_eq!(offset_by(0, i64::MIN), None);
    assert_eq!(offset_by(1u64 << 63, i64::MIN), Some(0));
}

#[test]
fn error_messages() {
    assert_eq!(StreamError::EndOfStream.message(), "end of stream");
    assert_eq!(StreamError::Interrupted.message(), "interrupted");
    assert_eq!(StreamError::Unsupported.message(), "operation not supported");
    assert_eq!(StreamError::InvalidInput.message(), "invalid seek request");
    assert_eq!(StreamError::Other(5).message(), "source failure");
}

#[test]
fn exhaustion_is_not_final() {
    let mut s = stream_over(10);
    assert_eq!(s.ignore_bytes(10), Ok(()));
    assert_eq!(s.read_byte(), Err(StreamError::EndOfStream));
    assert_eq!(s.buffered_bytes(), 0);
    assert_eq!(s.rewind(3), 3);
    assert_eq!(s.buffered_bytes(), 3);
    assert_eq!(s.read_triple_bytes(), Ok([7, 8, 9]));
    assert_eq!(s.read_byte(), Err(StreamError::EndOfStream));
    assert_eq!(s.seek(SeekFrom::Start(1)), Ok(1));
    assert_eq!(s.buffered_bytes(), 0);
    assert_eq!(s.rewindable_bytes(), 0);
    assert_eq!(s.read_byte(), Ok(1));
}

#[test]
fn fetch_buffer_hands_out_the_unread_bytes() {
    let data = counting(3000);
    let mut s = stream_over(3000);
    assert_eq!(s.fetch_buffer().map(|b| b.to_vec()), Ok(data[..1024].to_vec()));
    assert_eq!(s.pos(), 0);
    assert_eq!(s.ignore_bytes(1000), Ok(()));
    assert_eq!(s.fetch_buffer().map(|b| b.to_vec()), Ok(data[1000..1024].to_vec()));
    assert_eq!(s.refill(), Ok(24));
    assert_eq!(s.ignore_bytes(24), Ok(()));
    assert_eq!(s.refill(), Ok(1976));
    assert_eq!(s.fetch_buffer().map(|b| b.to_vec()), Ok(data[1024..].to_vec()));
    assert_eq!(s.ignore_bytes(1976), Ok(()));
    assert_eq!(s.fetch_buffer().map(|b| b.len()), Ok(0));
    assert_eq!(s.refill(), Ok(0));
    assert_eq!(s.pos(), 3000);
}
