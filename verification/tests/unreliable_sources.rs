use media_io::error::StreamError;
use media_io::source::{MediaSource, SeekFrom};
use media_io::stream::MediaSourceStream;
use media_io::view::Refill;

/// A source that delivers its bytes in small pieces, reports an
/// interruption before each piece, and can be told to fail.
struct Trickle {
    data: Vec<u8>,
    pos: usize,
    piece: usize,
    interrupt_next: bool,
    interruptions: usize,
    fail_from: Option<usize>,
    requests: Vec<usize>,
}

impl Trickle {
    fn new(len: usize, piece: usize) -> Self {
        let mut data = Vec::with_capacity(len);
        for i in 0..len {
            data.push((i % 253) as u8);
        }
        Trickle {
            data,
            pos: 0,
            piece,
            interrupt_next: true,
            interruptions: 0,
            fail_from: None,
            requests: Vec::new(),
        }
    }
}

impl MediaSource for Trickle {
    fn read(&mut self, buf: &mut [u8]) -> Result<usize, StreamError> {
        if self.interrupt_next {
            self.interrupt_next = false;
            self.interruptions += 1;
            return Err(StreamError::Interrupted);
        }
        self.interrupt_next = true;
        self.requests.push(buf.len());
        if let Some(limit) = self.fail_from {
            if self.pos >= limit {
                return Err(StreamError::Other(5));
            }
        }
        let left = self.data.len() - self.pos;
        let n = buf.len().min(self.piece).min(left);
        buf[..n].copy_from_slice(&self.data[self.pos..self.pos + n]);
        self.pos += n;
        Ok(n)
    }

    fn seek(&mut self, _request: SeekFrom) -> Result<u64, StreamError> {
        Err(StreamError::Unsupported)
    }

    fn is_seekable(&self) -> bool {
        false
    }

    fn len(&self) -> Option<u64> {
        None
    }
}

#[test]
fn sequential_reading_asks_for_doubling_amounts() {
    let total = 1024 + 2048 + 4096 + 8192 + 16384 + 5 * 32768;
    let mut s = MediaSourceStream::new(Trickle::new(total + 1, usize::MAX));
    assert_eq!(s.ignore_bytes(total as u64), Ok(()));
    assert_eq!(s.buffered_bytes(), 0);
    assert_eq!(s.rewindable_bytes(), 2 * 32768);
    let source = s.into_inner();
    assert_eq!(
        source.requests,
        vec![1024, 2048, 4096, 8192, 16384, 32768, 32768, 32768, 32768, 32768]
    );
    assert_eq!(source.interruptions, 10);
}

#[test]
fn interruptions_never_surface() {
    let mut s = MediaSourceStream::new(Trickle::new(3000, 100));
    let mut out = vec![0u8; 3000];
    assert_eq!(s.read(&mut out), Ok(3000));
    for (i, b) in out.iter().enumerate() {
        assert_eq!(*b, (i % 253) as u8);
    }
    assert_eq!(s.read_byte(), Err(StreamError::EndOfStream));
    assert_eq!(s.len(), None);
    assert!(!s.is_seekable());
}

#[test]
fn partial_fills_ask_for_the_rest_of_the_generation() {
    let mut s = MediaSourceStream::new(Trickle::new(3000, 100));
    assert_eq!(s.refill_plan(), Refill::Fill { amount: 1024 });
    assert_eq!(s.fetch_buffer().map(|b| b.len()), Ok(100));
    assert_eq!(s.buffered_bytes(), 100);
    assert_eq!(s.ignore_bytes(100), Ok(()));
    assert_eq!(s.refill_plan(), Refill::Fill { amount: 924 });
    assert_eq!(s.ignore_bytes(900), Ok(()));
    assert_eq!(s.refill_plan(), Refill::Fill { amount: 24 });
    assert_eq!(s.fetch_buffer().map(|b| b.len()), Ok(24));
    assert_eq!(s.ignore_bytes(24), Ok(()));
    assert_eq!(s.refill_plan(), Refill::Grow { amount: 2048 });
    assert_eq!(s.fetch_buffer().map(|b| b.len()), Ok(100));
    assert_eq!(s.refill_plan(), Refill::Ready);
    assert_eq!(s.rewindable_bytes(), 1024);
    assert_eq!(s.pos(), 1024);
}

#[test]
fn source_failures_surface_and_change_nothing() {
    let mut source = Trickle::new(3000, 100);
    source.fail_from = Some(200);
    let mut s = MediaSourceStream::new(source);
    let mut out = vec![0u8; 300];
    assert_eq!(s.read(&mut out), Err(StreamError::Other(5)));
    assert_eq!(s.pos(), 200);
    assert_eq!(&out[..200], &Trickle::new(200, 1).data[..]);
    assert_eq!(s.buffered_bytes(), 0);
    assert_eq!(s.rewindable_bytes(), 200);
    assert_eq!(s.read_byte(), Err(StreamError::Other(5)));
    assert_eq!(s.fetch_buffer().map(|b| b.len()), Err(StreamError::Other(5)));
    assert_eq!(s.ignore_bytes(1), Err(StreamError::Other(5)));
    assert_eq!(s.pos(), 200);
    assert_eq!(s.rewind(200), 200);
    assert_eq!(s.read_quad_bytes(), Ok([0, 1, 2, 3]));
    assert_eq!(s.seek(SeekFrom::Start(0)), Err(StreamError::Unsupported));
    assert_eq!(s.pos(), 4);
}
