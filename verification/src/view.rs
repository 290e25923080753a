//! The model of a stream that the contracts of its methods speak of.

use vstd::prelude::*;
use crate::capacity::{grown, is_power_of_two, INIT_CAPACITY, MAX_CAPACITY};
use crate::error::StreamError;
use crate::source::SeekFrom;

verus! {

/// What a stream does when it is asked for unread bytes.
#[derive(Clone, Copy, Debug, PartialEq, Eq, Structural)]
pub enum Refill {
    /// The active generation still has unread bytes: nothing is done.
    Ready,
    /// The cursor was moved back into the older generation and has reached
    /// its end: the newer generation becomes active again. No read.
    CatchUp,
    /// The newest generation is not full: `amount` more bytes are requested
    /// from the source and appended to it.
    Fill { amount: usize },
    /// The newest generation is full and consumed: a fresh generation of
    /// capacity `amount` replaces the older one, and that many bytes are
    /// requested from the source.
    Grow { amount: usize },
}

/// What a stream is to its users: the bytes of its source, the cursor, the
/// window of positions that are held in memory and how it is split into
/// two generations, and what the source promises of its reads.
pub struct StreamView {
    /// Every byte of the source, by source offset.
    pub source: Seq<u8>,
    /// The source offset that the stream counts as position 0.
    pub origin: nat,
    /// The position of the next unread byte.
    pub pos: nat,
    /// The earliest position still held in memory.
    pub start: nat,
    /// The position up to which the source has been read.
    pub end: nat,
    /// The capacity of the newest generation.
    pub capacity: nat,
    /// How many more bytes the newest generation can take.
    pub room: nat,
    /// Whether the older generation is the active one: the cursor was moved
    /// back into it and has not left it since.
    pub behind: bool,
    /// Whether no read of the source fails.
    pub unfailing: bool,
    /// Whether the source fills every request as far as its data lasts.
    pub filling: bool,
}

impl StreamView {
    /// The position at which the newest generation starts.
    pub open spec fn front(self) -> int {
        self.end - (self.capacity - self.room)
    }

    /// What holds of the view of every well-formed stream.
    pub open spec fn wf(self) -> bool {
        &&& self.start <= self.pos <= self.end
        &&& self.end - self.start <= 2 * MAX_CAPACITY
        &&& self.origin + self.end <= u64::MAX
        &&& self.start < self.end ==> self.origin + self.end <= self.source.len()
        &&& INIT_CAPACITY <= self.capacity <= MAX_CAPACITY
        &&& is_power_of_two(self.capacity)
        &&& self.room <= self.capacity
        &&& self.start <= self.front()
        &&& self.behind ==> self.pos <= self.front() && self.start < self.front()
        &&& !self.behind ==> self.front() <= self.pos
    }

    /// A stream just bound to a source that stands at `origin`.
    pub open spec fn bound(
        source: Seq<u8>,
        origin: nat,
        unfailing: bool,
        filling: bool,
    ) -> StreamView {
        StreamView {
            source,
            origin,
            pos: 0,
            start: 0,
            end: 0,
            capacity: INIT_CAPACITY as nat,
            room: INIT_CAPACITY as nat,
            behind: false,
            unfailing,
            filling,
        }
    }

    /// The view after a seek to the source offset `pos`: nothing is held,
    /// the capacity starts anew, positions are source offsets.
    pub open spec fn reset(self, pos: nat) -> StreamView {
        StreamView {
            origin: 0,
            pos,
            start: pos,
            end: pos,
            capacity: INIT_CAPACITY as nat,
            room: INIT_CAPACITY as nat,
            behind: false,
            ..self
        }
    }

    /// The request that is handed to the source for a seek of the stream:
    /// a relative one counts from where the source stands, which is ahead
    /// of the cursor by what is buffered.
    pub open spec fn handed_on(self, request: SeekFrom) -> SeekFrom {
        match request {
            SeekFrom::Current(delta) => SeekFrom::Current((delta - self.buffered()) as i64),
            _ => request,
        }
    }

    /// How far the cursor can move back.
    pub open spec fn rewindable(self) -> nat {
        (self.pos - self.start) as nat
    }

    /// How many bytes were read from the source and not yet consumed.
    pub open spec fn buffered(self) -> nat {
        (self.end - self.pos) as nat
    }

    /// How many unread bytes the active generation holds: those that are
    /// served without a refill.
    pub open spec fn unread(self) -> nat {
        if self.behind {
            (self.front() - self.pos) as nat
        } else {
            (self.end - self.pos) as nat
        }
    }

    /// How many bytes lie between the cursor and the end of the source.
    pub open spec fn remaining(self) -> nat {
        if self.origin + self.pos <= self.source.len() {
            (self.source.len() - self.origin - self.pos) as nat
        } else {
            0
        }
    }

    /// How many bytes the source has left to deliver.
    pub open spec fn source_left(self) -> nat {
        if self.origin + self.end <= self.source.len() {
            (self.source.len() - self.origin - self.end) as nat
        } else {
            0
        }
    }

    /// What the next refill does: see `Refill`.
    pub open spec fn plan(self) -> Refill {
        if self.unread() > 0 {
            Refill::Ready
        } else if self.behind {
            Refill::CatchUp
        } else if self.room > 0 {
            Refill::Fill { amount: self.room as usize }
        } else {
            Refill::Grow { amount: grown(self.capacity) as usize }
        }
    }

    /// How many bytes the next refill asks of the source.
    pub open spec fn request(self) -> nat {
        match self.plan() {
            Refill::Fill { amount } => amount as nat,
            Refill::Grow { amount } => amount as nat,
            _ => 0,
        }
    }

    /// How many bytes the next refill gets from a source that fills every
    /// request.
    pub open spec fn delivery(self) -> nat {
        if self.request() <= self.source_left() {
            self.request()
        } else {
            self.source_left()
        }
    }

    /// The view after a refill to which the source delivered `n` bytes.
    pub open spec fn refilled(self, n: nat) -> StreamView {
        match self.plan() {
            Refill::Ready => self,
            Refill::CatchUp => StreamView { behind: false, ..self },
            Refill::Fill { amount } => StreamView {
                end: self.end + n,
                room: (self.room - n) as nat,
                ..self
            },
            Refill::Grow { amount } => StreamView {
                start: self.front() as nat,
                end: self.end + n,
                capacity: amount as nat,
                room: (amount - n) as nat,
                ..self
            },
        }
    }

    /// The next `n` bytes in stream order.
    pub open spec fn upcoming(self, n: nat) -> Seq<u8>
        recommends
            n <= self.remaining(),
    {
        Seq::new(n, |i: int| self.source[self.origin + self.pos + i])
    }

    /// The view with the cursor moved forward by `n` over bytes that are
    /// held: the older generation is left where the cursor passes its end.
    pub open spec fn skipped(self, n: nat) -> StreamView {
        StreamView {
            pos: self.pos + n,
            behind: self.behind && self.pos + n <= self.front(),
            ..self
        }
    }

    /// The view after a request to move the cursor back by `n`: granted in
    /// full where the window reaches that far, else not at all.
    pub open spec fn rewound(self, n: nat) -> StreamView {
        if n <= self.rewindable() {
            StreamView {
                pos: (self.pos - n) as nat,
                behind: self.behind || self.pos - n < self.front(),
                ..self
            }
        } else {
            self
        }
    }

    /// The byte under the cursor.
    pub open spec fn next_byte(self) -> u8
        recommends
            self.remaining() > 0,
    {
        self.source[(self.origin + self.pos) as int]
    }

    /// Whether `later` can follow `self` by an operation that was to consume
    /// `n` bytes and stopped short of it.
    pub open spec fn stops_within(self, later: StreamView, n: nat) -> bool {
        &&& self.pos <= later.pos < self.pos + n
        &&& self.advances_to(later, (later.pos - self.pos) as nat)
    }

    /// What a bulk read into a destination of `before.len()` bytes does:
    /// it delivers as many of the upcoming bytes as the destination takes
    /// and the source still has, in order, to the front of the destination.
    /// At the end of the source that is none. Where the source fails, what
    /// was delivered until then stays consumed.
    pub open spec fn bulk_read(
        self,
        later: StreamView,
        before: Seq<u8>,
        after: Seq<u8>,
        r: Result<usize, StreamError>,
    ) -> bool {
        let len = before.len();
        &&& after.len() == len
        &&& self.unfailing ==> r is Ok
        &&& match r {
            Ok(n) => {
                &&& n == if len <= self.remaining() {
                    len
                } else {
                    self.remaining()
                }
                &&& self.advances_to(later, n as nat)
                &&& after.subrange(0, n as int) == self.upcoming(n as nat)
                &&& after.subrange(n as int, len as int) == before.subrange(n as int, len as int)
            },
            Err(e) => {
                let k = later.pos - self.pos;
                &&& e != StreamError::Interrupted
                &&& self.stops_within(later, len)
                &&& after.subrange(0, k) == self.upcoming(k as nat)
                &&& e == StreamError::EndOfStream ==> later.remaining() == 0
            },
        }
    }

    /// What an operation that is to consume exactly `n` bytes returns over
    /// a source that does not fail: success where that many bytes are left,
    /// `EndOfStream` where they are not.
    pub open spec fn exact_outcome<T>(self, r: Result<T, StreamError>, n: nat) -> bool {
        self.unfailing ==> {
            &&& r is Ok <==> n <= self.remaining()
            &&& r matches Err(e) ==> e == StreamError::EndOfStream
        }
    }

    /// Whether `later` can follow `self` by reading alone: the same source,
    /// a cursor `n` further on, a window and a capacity that only moved
    /// forward. Where the window has moved, at least `INIT_CAPACITY` bytes
    /// before the cursor are still held.
    pub open spec fn advances_to(self, later: StreamView, n: nat) -> bool {
        &&& later.source == self.source
        &&& later.origin == self.origin
        &&& later.unfailing == self.unfailing
        &&& later.filling == self.filling
        &&& later.pos == self.pos + n
        &&& later.start >= self.start
        &&& later.end >= self.end
        &&& later.capacity >= self.capacity
        &&& later.start == self.start || later.pos - later.start >= INIT_CAPACITY
    }
}

} // verus!
