//! A source that serves bytes held in memory.

use vstd::prelude::*;
use crate::error::StreamError;
use crate::source::{offset_by, MediaSource, SeekFrom};

verus! {

/// A byte vector read front to back, seekable or not.
pub struct MemorySource {
    data: Vec<u8>,
    pos: u64,
    seekable: bool,
    log: Ghost<Seq<nat>>,
}

impl MemorySource {
    /// A seekable source over `data`, positioned at its first byte.
    pub fn new(data: Vec<u8>) -> (s: Self)
        ensures
            s.valid(),
            s.content() == data@,
            s.position() == 0,
            s.seekable(),
            s.requested() == Seq::<nat>::empty(),
    {
        let _total: usize = data.len();
        MemorySource { data, pos: 0, seekable: true, log: Ghost(Seq::empty()) }
    }

    /// A source over `data` that refuses every seek.
    pub fn unseekable(data: Vec<u8>) -> (s: Self)
        ensures
            s.valid(),
            s.content() == data@,
            s.position() == 0,
            !s.seekable(),
            s.requested() == Seq::<nat>::empty(),
    {
        let _total: usize = data.len();
        MemorySource { data, pos: 0, seekable: false, log: Ghost(Seq::empty()) }
    }
}

impl MediaSource for MemorySource {
    closed spec fn valid(&self) -> bool {
        self.data@.len() <= usize::MAX
    }

    closed spec fn content(&self) -> Seq<u8> {
        self.data@
    }

    closed spec fn position(&self) -> u64 {
        self.pos
    }

    closed spec fn seekable(&self) -> bool {
        self.seekable
    }

    closed spec fn known_len(&self) -> Option<u64> {
        Some(self.data@.len() as u64)
    }

    closed spec fn requested(&self) -> Seq<nat> {
        self.log@
    }

    open spec fn unfailing(&self) -> bool {
        true
    }

    open spec fn filling(&self) -> bool {
        true
    }

    open spec fn seek_outcome(&self, request: SeekFrom) -> Result<u64, StreamError> {
        if !self.seekable() {
            Err(StreamError::Unsupported)
        } else {
            let target = seek_target_of(*self, request);
            if 0 <= target <= u64::MAX {
                Ok(target as u64)
            } else {
                Err(StreamError::InvalidInput)
            }
        }
    }

    open spec fn patience(&self) -> nat {
        0
    }

    fn read(&mut self, buf: &mut [u8]) -> (r: Result<usize, StreamError>)
        ensures
            r is Ok,
            old(self).position() >= old(self).content().len() ==> r == Ok::<usize, StreamError>(0),
            old(self).position() < old(self).content().len() ==> r == Ok::<usize, StreamError>(
                vstd::math::min(
                    old(buf)@.len() as int,
                    old(self).content().len() - old(self).position(),
                ) as usize,
            ),
    {
        let total: usize = self.data.len();
        self.log = Ghost(self.log@.push(buf@.len()));
        if self.pos >= total as u64 {
            return Ok(0);
        }
        let start: usize = self.pos as usize;
        let avail: usize = total - start;
        let n: usize = if buf.len() < avail {
            buf.len()
        } else {
            avail
        };
        let mut i: usize = 0;
        while i < n
            invariant
                i <= n,
                n <= buf@.len(),
                buf@.len() == old(buf)@.len(),
                start + n <= total,
                total == self.data@.len(),
                self.data@ == old(self).data@,
                self.pos == old(self).pos,
                self.seekable == old(self).seekable,
                self.log@ == old(self).log@.push(old(buf)@.len()),
                forall|k: int| 0 <= k < i ==> buf@[k] == self.data@[start + k],
            decreases n - i,
        {
            buf[i] = self.data[start + i];
            i += 1;
        }
        self.pos = self.pos + n as u64;
        Ok(n)
    }

    fn seek(&mut self, request: SeekFrom) -> (r: Result<u64, StreamError>)
        ensures
            !old(self).seekable() ==> r == Err::<u64, StreamError>(StreamError::Unsupported),
            old(self).seekable() ==> (r is Ok <==> 0 <= seek_target_of(*old(self), request)
                <= u64::MAX),
            old(self).seekable() && r is Err ==> r == Err::<u64, StreamError>(
                StreamError::InvalidInput,
            ),
            final(self).seekable() == old(self).seekable(),
    {
        if !self.seekable {
            return Err(StreamError::Unsupported);
        }
        let target: Option<u64> = match request {
            SeekFrom::Start(p) => Some(p),
            SeekFrom::End(d) => offset_by(self.data.len() as u64, d),
            SeekFrom::Current(d) => offset_by(self.pos, d),
        };
        match target {
            Some(p) => {
                self.pos = p;
                Ok(p)
            },
            None => Err(StreamError::InvalidInput),
        }
    }

    fn is_seekable(&self) -> (r: bool) {
        self.seekable
    }

    fn len(&self) -> (r: Option<u64>)
        ensures
            r == Some(self.content().len() as u64),
    {
        Some(self.data.len() as u64)
    }
}

/// The offset that `request` names on `s`.
pub open spec fn seek_target_of(s: MemorySource, request: SeekFrom) -> int {
    crate::source::seek_target(s.position() as int, s.content().len(), request)
}

} // verus!
