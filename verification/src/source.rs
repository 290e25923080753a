//! The contract between a stream and the provider of its bytes.

use vstd::prelude::*;
use crate::error::StreamError;

verus! {

/// A seek request, relative to the start, the end or the current position.
#[derive(Clone, Copy, Debug, PartialEq, Eq, Structural)]
pub enum SeekFrom {
    Start(u64),
    End(i64),
    Current(i64),
}

/// The absolute offset that a seek request names, given the position it is
/// made at and the total length of the data.
pub open spec fn seek_target(position: int, len: nat, request: SeekFrom) -> int {
    match request {
        SeekFrom::Start(p) => p as int,
        SeekFrom::End(d) => len + d,
        SeekFrom::Current(d) => position + d,
    }
}

/// A provider of sequential bytes, optionally seekable and optionally of
/// known length.
///
/// A source is modelled by the bytes it holds (`content`) and the offset of
/// the next byte it will deliver (`position`). Implementations promise what
/// the method contracts below state; a stream built on a source relies on
/// nothing else.
///
/// A verified implementation states its model by defining the spec
/// functions and proves the contracts. An implementation in unverified
/// code keeps the defaults; what is proved of a stream then holds of it
/// as far as it keeps the contracts, which nothing checks.
pub trait MediaSource {
    /// The implementation's own consistency condition. An implementation
    /// that gives no model of itself is never valid.
    open spec fn valid(&self) -> bool {
        false
    }

    /// Every byte of the source, by absolute offset.
    open spec fn content(&self) -> Seq<u8> {
        Seq::empty()
    }

    /// The absolute offset of the next byte that `read` delivers.
    open spec fn position(&self) -> u64 {
        0
    }

    /// An upper bound on how many more times in a row `read` may report
    /// `Interrupted`: the condition is transient.
    open spec fn patience(&self) -> nat {
        0
    }

    /// Whether the source claims to support seeking.
    open spec fn seekable(&self) -> bool {
        false
    }

    /// The sizes of the destinations of all reads so far, interrupted ones
    /// aside: how much the source was asked for, read by read.
    open spec fn requested(&self) -> Seq<nat> {
        Seq::empty()
    }

    /// Whether no read of the source fails, now or later.
    open spec fn unfailing(&self) -> bool {
        false
    }

    /// Whether every read delivers as many bytes as it is asked for, as far
    /// as the data lasts.
    open spec fn filling(&self) -> bool {
        false
    }

    /// What a seek with `request` returns, made where the source stands.
    open spec fn seek_outcome(&self, request: SeekFrom) -> Result<u64, StreamError> {
        Err(StreamError::Unsupported)
    }

    /// The total length that the source reports, where it knows one.
    open spec fn known_len(&self) -> Option<u64> {
        None
    }

    /// Transfers up to `buf.len()` bytes from the current position to the
    /// front of `buf` and advances by the count transferred. The count is 0
    /// only for an empty `buf` or at the end of the data. A failed read
    /// transfers nothing and leaves `buf` as it was.
    fn read(&mut self, buf: &mut [u8]) -> (r: Result<usize, StreamError>)
        requires
            old(self).valid(),
        ensures
            final(self).valid(),
            final(self).content() == old(self).content(),
            final(buf)@.len() == old(buf)@.len(),
            final(self).unfailing() == old(self).unfailing(),
            final(self).filling() == old(self).filling(),
            final(self).seekable() == old(self).seekable(),
            final(self).known_len() == old(self).known_len(),
            old(self).unfailing() ==> r is Ok,
            old(self).filling() ==> (r matches Ok(n) ==> n == vstd::math::min(
                old(buf)@.len() as int,
                vstd::math::max(0, old(self).content().len() - old(self).position()),
            )),
            final(self).requested() == if r == Err::<usize, StreamError>(StreamError::Interrupted) {
                old(self).requested()
            } else {
                old(self).requested().push(old(buf)@.len())
            },
            match r {
                Ok(n) => {
                    &&& n <= old(buf)@.len()
                    &&& final(self).position() == old(self).position() + n
                    &&& n > 0 ==> old(self).position() + n <= old(self).content().len()
                    &&& n == 0 <==> (old(buf)@.len() == 0
                        || old(self).position() >= old(self).content().len())
                    &&& forall|i: int|
                        0 <= i < n ==> final(buf)@[i] == old(self).content()[old(self).position()
                            + i]
                },
                Err(e) => {
                    &&& final(self).position() == old(self).position()
                    &&& final(buf)@ == old(buf)@
                    &&& e == StreamError::Interrupted ==> final(self).patience()
                        < old(self).patience()
                    &&& e == StreamError::EndOfStream ==> old(self).position()
                        >= old(self).content().len()
                },
            },
    ;

    /// Moves the read position to the offset that `request` names and
    /// returns it. A failed seek leaves the position where it was. Whether
    /// the seek is granted, and the error where it is not, is what
    /// `seek_outcome` says.
    fn seek(&mut self, request: SeekFrom) -> (r: Result<u64, StreamError>)
        requires
            old(self).valid(),
        ensures
            final(self).valid(),
            final(self).content() == old(self).content(),
            final(self).requested() == old(self).requested(),
            final(self).unfailing() == old(self).unfailing(),
            final(self).filling() == old(self).filling(),
            final(self).seekable() == old(self).seekable(),
            final(self).known_len() == old(self).known_len(),
            r == old(self).seek_outcome(request),
            match r {
                Ok(p) => {
                    &&& final(self).position() == p
                    &&& p == seek_target(
                        old(self).position() as int,
                        old(self).content().len(),
                        request,
                    )
                },
                Err(_) => final(self).position() == old(self).position(),
            },
    ;

    /// Whether the source claims to support seeking.
    fn is_seekable(&self) -> (r: bool)
        requires
            self.valid(),
        ensures
            r == self.seekable(),
    ;

    /// The total length of the data, where the source knows it.
    fn len(&self) -> (r: Option<u64>)
        requires
            self.valid(),
        ensures
            r == self.known_len(),
            r matches Some(n) ==> n == self.content().len(),
    ;
}

/// Moves `base` by `delta`, where the result is a valid offset.
pub fn offset_by(base: u64, delta: i64) -> (r: Option<u64>)
    ensures
        match r {
            Some(p) => p == base + delta,
            None => base + delta < 0 || base + delta > u64::MAX,
        },
{
    if delta >= 0 {
        let d: u64 = delta as u64;
        if base <= u64::MAX - d {
            Some(base + d)
        } else {
            None
        }
    } else {
        let d: u64 = (-(delta + 1)) as u64 + 1;
        if base >= d {
            Some(base - d)
        } else {
            None
        }
    }
}

} // verus!
