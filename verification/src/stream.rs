//! The buffered, rewindable stream.
//!
//! A stream keeps two generations of buffered bytes in one backing region.
//! The active generation is read from; the other is retained so that the
//! cursor can move back without touching the source.

use vstd::prelude::*;
use crate::capacity::{grown, is_power_of_two, lemma_grown, INIT_CAPACITY, MAX_CAPACITY};
use crate::error::StreamError;
use crate::source::{seek_target, MediaSource, SeekFrom};
use crate::view::{Refill, StreamView};

verus! {

/// One generation: where it starts in the stream, how many bytes of it are
/// valid, and how many it may hold.
#[derive(Clone, Copy)]
struct Partition {
    base_pos: u64,
    len: usize,
    capacity: usize,
}

/// A read-ahead buffer over a source, with bounded rewinding.
pub struct MediaSourceStream<S: MediaSource> {
    /// The source of the bytes.
    inner: S,
    /// Backing storage: generation `g` owns the half that starts at
    /// `g * MAX_CAPACITY`.
    buf: Vec<u8>,
    /// Index into `buf` of the next unread byte.
    pos: usize,
    /// Index into `buf` one past the last valid byte of the active half.
    end_pos: usize,
    /// The capacity of the newest generation.
    cur_capacity: usize,
    /// Which generation is active: 0 or 1.
    part_idx: usize,
    part0: Partition,
    part1: Partition,
    /// The source offset that counts as position 0.
    origin: Ghost<nat>,
}

impl<S: MediaSource> View for MediaSourceStream<S> {
    type V = StreamView;

    closed spec fn view(&self) -> StreamView {
        let cur = self.spec_part(self.part_idx as int);
        StreamView {
            source: self.inner.content(),
            origin: self.origin@,
            pos: (cur.base_pos + cur.len - (self.end_pos - self.pos)) as nat,
            start: if self.part0.base_pos <= self.part1.base_pos {
                self.part0.base_pos as nat
            } else {
                self.part1.base_pos as nat
            },
            end: if self.part0.base_pos + self.part0.len >= self.part1.base_pos + self.part1.len {
                (self.part0.base_pos + self.part0.len) as nat
            } else {
                (self.part1.base_pos + self.part1.len) as nat
            },
            capacity: self.cur_capacity as nat,
            room: if cur.base_pos < self.spec_part(1 - self.part_idx).base_pos {
                (self.spec_part(1 - self.part_idx).capacity - self.spec_part(
                    1 - self.part_idx,
                ).len) as nat
            } else {
                (cur.capacity - cur.len) as nat
            },
            behind: cur.base_pos < self.spec_part(1 - self.part_idx).base_pos,
            unfailing: self.inner.unfailing(),
            filling: self.inner.filling(),
        }
    }
}

impl<S: MediaSource> MediaSourceStream<S> {
    spec fn spec_part(&self, idx: int) -> Partition {
        if idx == 0 {
            self.part0
        } else {
            self.part1
        }
    }

    /// Whether the bytes recorded for generation `g` are the source's.
    spec fn holds(&self, g: int) -> bool {
        let p = self.spec_part(g);
        &&& p.len > 0 ==> self.origin@ + p.base_pos + p.len <= self.inner.content().len()
        &&& forall|j: int|
            g * MAX_CAPACITY <= j < g * MAX_CAPACITY + p.len ==> #[trigger] self.buf@[j]
                == self.inner.content()[self.origin@ + p.base_pos + (j - g * MAX_CAPACITY)]
    }

    spec fn part_wf(p: Partition) -> bool {
        &&& p.len <= p.capacity
        &&& INIT_CAPACITY <= p.capacity <= MAX_CAPACITY
        &&& is_power_of_two(p.capacity as nat)
    }

    /// The consistency of a stream: established by `new`, kept by every
    /// method.
    pub open spec fn wf(&self) -> bool {
        self.inv() && self@.wf()
    }

    /// How the fields of a stream hang together.
    #[verifier::opaque]
    pub closed spec fn inv(&self) -> bool {
        let cur = self.spec_part(self.part_idx as int);
        let alt = self.spec_part(1 - self.part_idx);
        &&& self.inner.valid()
        &&& self.buf@.len() == 2 * MAX_CAPACITY
        &&& self.part_idx <= 1
        &&& Self::part_wf(self.part0)
        &&& Self::part_wf(self.part1)
        &&& INIT_CAPACITY <= self.cur_capacity <= MAX_CAPACITY
        &&& is_power_of_two(self.cur_capacity as nat)
        &&& self.part_idx * MAX_CAPACITY <= self.pos <= self.end_pos
        &&& self.end_pos == self.part_idx * MAX_CAPACITY + cur.len
        &&& if cur.base_pos < alt.base_pos {
            &&& cur.base_pos + cur.len == alt.base_pos
            &&& alt.capacity == self.cur_capacity
            &&& self.inner.position() == self.origin@ + alt.base_pos + alt.len
            &&& alt.len == 0 ==> self.origin@ + alt.base_pos >= self.inner.content().len()
        } else {
            &&& alt.base_pos + alt.len == cur.base_pos
            &&& cur.capacity == self.cur_capacity
            &&& self.inner.position() == self.origin@ + cur.base_pos + cur.len
            &&& cur.len == 0 && alt.base_pos < cur.base_pos ==> self.origin@ + cur.base_pos
                >= self.inner.content().len()
        }
        &&& self.holds(0)
        &&& self.holds(1)
    }

    /// The number of unread bytes in the active generation: those that can
    /// be served without a refill.
    pub open spec fn unread(&self) -> nat {
        self@.unread()
    }

    /// Binds a stream to `source`. Position 0 of the stream is where the
    /// source stands.
    pub fn new(source: S) -> (s: Self)
        requires
            source.valid(),
        ensures
            s.wf(),
            s@ == StreamView::bound(
                source.content(),
                source.position() as nat,
                source.unfailing(),
                source.filling(),
            ),
            s.source() == source,
    {
        reveal(MediaSourceStream::inv);
        proof {
            reveal_with_fuel(is_power_of_two, 12);
        }
        let ghost origin = source.position() as nat;
        MediaSourceStream {
            inner: source,
            cur_capacity: INIT_CAPACITY,
            buf: vec![0u8; 2 * MAX_CAPACITY],
            pos: 0,
            end_pos: 0,
            part_idx: 0,
            part0: Partition { base_pos: 0, len: 0, capacity: INIT_CAPACITY },
            part1: Partition { base_pos: 0, len: 0, capacity: INIT_CAPACITY },
            origin: Ghost(origin),
        }
    }

    /// Drops everything buffered and restarts at `base_pos`, which is where
    /// the source now stands.
    fn invalidate(&mut self, base_pos: u64)
        requires
            old(self).inner.valid(),
            old(self).buf@.len() == 2 * MAX_CAPACITY,
            old(self).inner.position() == base_pos,
        ensures
            final(self).wf(),
            final(self)@ == (StreamView {
                source: old(self).inner.content(),
                unfailing: old(self).inner.unfailing(),
                filling: old(self).inner.filling(),
                ..old(self)@
            }).reset(base_pos as nat),
            final(self).inner == old(self).inner,
    {
        reveal(MediaSourceStream::inv);
        proof {
            reveal_with_fuel(is_power_of_two, 12);
        }
        self.pos = 0;
        self.end_pos = 0;
        self.cur_capacity = INIT_CAPACITY;
        self.part_idx = 0;
        self.part0 = Partition { base_pos, len: 0, capacity: INIT_CAPACITY };
        self.part1 = Partition { base_pos, len: 0, capacity: INIT_CAPACITY };
        self.origin = Ghost(0);
    }

    fn part(&self, idx: usize) -> (p: Partition)
        ensures
            p == self.spec_part(idx as int),
    {
        if idx == 0 {
            self.part0
        } else {
            self.part1
        }
    }

    /// The position of the source, in stream positions.
    fn inner_pos(&self) -> (r: u64)
        requires
            self.wf(),
        ensures
            r == self@.end,
    {
        reveal(MediaSourceStream::inv);
        let a: u64 = self.part0.base_pos + self.part0.len as u64;
        let b: u64 = self.part1.base_pos + self.part1.len as u64;
        if a >= b {
            a
        } else {
            b
        }
    }

    /// The position of the next unread byte.
    pub fn pos(&self) -> (r: u64)
        requires
            self.wf(),
        ensures
            r == self@.pos,
    {
        reveal(MediaSourceStream::inv);
        let cur = self.part(self.part_idx);
        cur.base_pos + cur.len as u64 - (self.end_pos as u64 - self.pos as u64)
    }

    /// The number of bytes read from the source and not yet consumed.
    pub fn buffered_bytes(&self) -> (r: u64)
        requires
            self.wf(),
        ensures
            r == self@.buffered(),
    {
        reveal(MediaSourceStream::inv);
        self.inner_pos() - self.pos()
    }

    /// The largest number of bytes that `rewind` can move back by.
    pub fn rewindable_bytes(&self) -> (r: u64)
        requires
            self.wf(),
        ensures
            r == self@.rewindable(),
    {
        reveal(MediaSourceStream::inv);
        let first: u64 = if self.part0.base_pos <= self.part1.base_pos {
            self.part0.base_pos
        } else {
            self.part1.base_pos
        };
        self.pos() - first
    }

    /// Moves the cursor back by `rewind_len` bytes where that many are still
    /// held, and not at all otherwise. Returns the number of bytes moved.
    pub fn rewind(&mut self, rewind_len: usize) -> (r: usize)
        requires
            old(self).wf(),
        ensures
            final(self).source() == old(self).source(),
            final(self).wf(),
            final(self)@ == old(self)@.rewound(rewind_len as nat),
            r == if rewind_len <= old(self)@.rewindable() {
                rewind_len
            } else {
                0
            },
    {
        reveal(MediaSourceStream::inv);
        let cur_idx: usize = self.part_idx;
        let alt_idx: usize = 1 - cur_idx;
        let pos: u64 = self.pos();
        if rewind_len as u64 > pos {
            return 0;
        }
        let target_pos: u64 = pos - rewind_len as u64;
        let cur = self.part(cur_idx);
        let alt = self.part(alt_idx);
        if target_pos >= cur.base_pos {
            // The target lies in the active generation.
            self.step_back(rewind_len);
        } else if target_pos >= alt.base_pos {
            // The target lies in the retained generation: make it active.
            self.switch_back(target_pos);
        } else {
            // The target precedes everything that is held.
            return 0;
        }
        rewind_len
    }

    /// Moves the cursor back by `n` bytes within the active generation.
    fn step_back(&mut self, n: usize)
        requires
            old(self).wf(),
            n <= old(self).pos - old(self).part_idx * MAX_CAPACITY,
        ensures
            final(self).wf(),
            final(self).inner == old(self).inner,
            final(self)@ == old(self)@.rewound(n as nat),
    {
        reveal(MediaSourceStream::inv);
        self.pos -= n;
    }

    /// Makes the retained generation active, with the cursor at the
    /// position `target` within it.
    fn switch_back(&mut self, target: u64)
        requires
            old(self).wf(),
            old(self).spec_part(1 - old(self).part_idx).base_pos <= target,
            target < old(self).spec_part(old(self).part_idx as int).base_pos,
        ensures
            final(self).wf(),
            final(self).inner == old(self).inner,
            final(self)@ == old(self)@.rewound((old(self)@.pos - target) as nat),
    {
        reveal(MediaSourceStream::inv);
        let alt_idx: usize = 1 - self.part_idx;
        let alt = self.part(alt_idx);
        self.part_idx = alt_idx;
        self.pos = alt_idx * MAX_CAPACITY + (target - alt.base_pos) as usize;
        self.end_pos = alt_idx * MAX_CAPACITY + alt.len;
    }

    fn set_part(&mut self, idx: usize, p: Partition)
        requires
            idx <= 1,
        ensures
            final(self).spec_part(idx as int) == p,
            final(self).spec_part(1 - idx) == old(self).spec_part(1 - idx),
            final(self).inner == old(self).inner,
            final(self).buf == old(self).buf,
            final(self).pos == old(self).pos,
            final(self).end_pos == old(self).end_pos,
            final(self).cur_capacity == old(self).cur_capacity,
            final(self).part_idx == old(self).part_idx,
            final(self).origin == old(self).origin,
    {
        if idx == 0 {
            self.part0 = p;
        } else {
            self.part1 = p;
        }
    }

    /// What the next refill does: see `Refill`.
    pub open spec fn planned(&self) -> Refill {
        self@.plan()
    }

    /// Decides what the next refill does, without doing it.
    pub fn refill_plan(&self) -> (r: Refill)
        requires
            self.wf(),
        ensures
            r == self.planned(),
            r is Ready <==> self.unread() > 0,
            self@.buffered() > 0 ==> r is Ready || r is CatchUp,
            r matches Refill::Fill { amount } ==> 0 < amount <= self@.capacity,
            r matches Refill::Grow { amount } ==> amount == grown(self@.capacity),
    {
        reveal(MediaSourceStream::inv);
        let cur = self.part(self.part_idx);
        let alt = self.part(1 - self.part_idx);
        if self.pos < self.end_pos {
            Refill::Ready
        } else if cur.base_pos < alt.base_pos {
            Refill::CatchUp
        } else if cur.len < cur.capacity {
            Refill::Fill { amount: cur.capacity - cur.len }
        } else {
            let doubled: usize = 2 * self.cur_capacity;
            let amount: usize = if doubled < MAX_CAPACITY {
                doubled
            } else {
                MAX_CAPACITY
            };
            Refill::Grow { amount }
        }
    }

    /// Asks the source for up to `amount` bytes, to be stored from index
    /// `start` of the backing region on. A read that the source reports as
    /// interrupted is made again.
    fn read_source(&mut self, start: usize, amount: usize) -> (r: Result<usize, StreamError>)
        requires
            old(self).inner.valid(),
            start + amount <= old(self).buf@.len(),
        ensures
            final(self).inner.unfailing() == old(self).inner.unfailing(),
            final(self).inner.filling() == old(self).inner.filling(),
            old(self).inner.unfailing() ==> r is Ok,
            old(self).inner.filling() ==> (r matches Ok(n) ==> n == vstd::math::min(
                amount as int,
                vstd::math::max(
                    0,
                    old(self).inner.content().len() - old(self).inner.position(),
                ),
            )),
            final(self).inner.valid(),
            final(self).inner.content() == old(self).inner.content(),
            final(self).inner.requested() == old(self).inner.requested().push(amount as nat),
            final(self).buf@.len() == old(self).buf@.len(),
            final(self).pos == old(self).pos,
            final(self).end_pos == old(self).end_pos,
            final(self).cur_capacity == old(self).cur_capacity,
            final(self).part_idx == old(self).part_idx,
            final(self).part0 == old(self).part0,
            final(self).part1 == old(self).part1,
            final(self).origin == old(self).origin,
            forall|j: int|
                0 <= j < start || start + amount <= j < old(self).buf@.len()
                    ==> final(self).buf@[j] == old(self).buf@[j],
            match r {
                Ok(n) => {
                    &&& n <= amount
                    &&& final(self).inner.position() == old(self).inner.position() + n
                    &&& n > 0 ==> old(self).inner.position() + n <= old(self).inner.content().len()
                    &&& n == 0 <==> (amount == 0
                        || old(self).inner.position() >= old(self).inner.content().len())
                    &&& forall|j: int|
                        start <= j < start + n ==> final(self).buf@[j]
                            == old(self).inner.content()[old(self).inner.position() + (j - start)]
                },
                Err(e) => {
                    &&& e != StreamError::Interrupted
                    &&& e == StreamError::EndOfStream ==> old(self).inner.position() >= old(
                        self).inner.content().len()
                    &&& final(self).inner.position() == old(self).inner.position()
                    &&& final(self).buf@ == old(self).buf@
                },
            },
    {
        loop
            invariant
                self.inner.valid(),
                self.inner.content() == old(self).inner.content(),
                self.inner.requested() == old(self).inner.requested(),
                self.inner.unfailing() == old(self).inner.unfailing(),
                self.inner.filling() == old(self).inner.filling(),
                self.inner.position() == old(self).inner.position(),
                self.buf@ == old(self).buf@,
                start + amount <= self.buf@.len(),
                self.pos == old(self).pos,
                self.end_pos == old(self).end_pos,
                self.cur_capacity == old(self).cur_capacity,
                self.part_idx == old(self).part_idx,
                self.part0 == old(self).part0,
                self.part1 == old(self).part1,
                self.origin == old(self).origin,
            decreases self.inner.patience(),
        {
            let ghost before = self.buf@;
            let whole = self.buf.as_mut_slice();
            let (_head, tail) = whole.split_at_mut(start);
            let (dest, _rest) = tail.split_at_mut(amount);
            let outcome = self.inner.read(dest);
            proof {
                assert(self.buf@.len() == before.len());
                assert forall|j: int| 0 <= j < start || start + amount <= j < before.len() implies
                    self.buf@[j] == before[j] by {}
                assert forall|j: int| start <= j < start + amount implies self.buf@[j]
                    == final(dest)@[j - start] by {}
            }
            match outcome {
                Ok(n) => {
                    return Ok(n);
                },
                Err(StreamError::Interrupted) => {
                    assert(self.buf@ =~= before);
                },
                Err(e) => {
                    assert(self.buf@ =~= before);
                    return Err(e);
                },
            }
        }
    }

    /// Makes unread bytes available in the active generation where there
    /// are none, and returns how many there are then. That number is 0 only
    /// at the end of the source. The cursor does not move.
    ///
    /// What is done is what `refill_plan` says. The source is read at most
    /// once, interrupted attempts aside; where that read fails, the stream
    /// is as it was.
    pub fn refill(&mut self) -> (r: Result<usize, StreamError>)
        requires
            old(self).wf(),
        ensures
            final(self).source().requested().len() >= old(self).source().requested().len(),
            r matches Err(e) && e != StreamError::EndOfStream ==> final(
                self).source().requested().len() > old(self).source().requested().len(),
            final(self).wf(),
            old(self)@.advances_to(final(self)@, 0),
            old(self)@.buffered() > 0 ==> r is Ok && final(self)@.unread() > 0,
            old(self)@.request() == 0 ==> r is Ok && final(self).source() == old(self).source(),
            old(self)@.unfailing ==> r is Ok,
            final(self).source().requested() == if old(self)@.request() > 0 {
                old(self).source().requested().push(old(self)@.request())
            } else {
                old(self).source().requested()
            },
            old(self)@.filling && r is Ok ==> final(self)@.end - old(self)@.end == old(
                self)@.delivery(),
            match r {
                Ok(k) => {
                    &&& final(self)@ == old(self)@.refilled(
                        (final(self)@.end - old(self)@.end) as nat,
                    )
                    &&& final(self)@.end - old(self)@.end <= old(self)@.request()
                    &&& k == final(self)@.unread()
                    &&& k <= final(self)@.buffered()
                    &&& k == 0 ==> final(self)@.remaining() == 0
                },
                Err(e) => {
                    &&& e != StreamError::Interrupted
                    &&& final(self)@ == old(self)@
                    &&& e == StreamError::EndOfStream ==> final(self)@.remaining() == 0
                },
            },
    {
        match self.refill_plan() {
            Refill::Ready => {
                proof {
                    self.lemma_unread();
                }
            },
            Refill::CatchUp => {
                self.catch_up();
            },
            Refill::Fill { amount } => {
                match self.fill(amount) {
                    Ok(_) => {},
                    Err(e) => {
                        return Err(e);
                    },
                }
            },
            Refill::Grow { amount } => {
                match self.grow(amount) {
                    Ok(_) => {},
                    Err(e) => {
                        return Err(e);
                    },
                }
            },
        }
        Ok(self.available())
    }

    /// The number of unread bytes in the active generation.
    fn available(&self) -> (r: usize)
        requires
            self.wf(),
        ensures
            r == self.unread(),
    {
        reveal(MediaSourceStream::inv);
        self.end_pos - self.pos
    }

    /// The unread byte `k` places after the cursor.
    fn peek(&self, k: usize) -> (b: u8)
        requires
            self.wf(),
            k < self.unread(),
        ensures
            self@.origin + self@.pos + k < self@.source.len(),
            b == self@.source[self@.origin + self@.pos + k],
    {
        proof {
            self.lemma_unread();
            reveal(MediaSourceStream::inv);
        }
        self.buf[self.pos + k]
    }

    /// Moves the cursor past `n` unread bytes of the active generation.
    fn consume(&mut self, n: usize)
        requires
            old(self).wf(),
            n <= old(self).unread(),
        ensures
            final(self).source() == old(self).source(),
            final(self).wf(),
            final(self)@ == old(self)@.skipped(n as nat),
            final(self).unread() == old(self).unread() - n,
    {
        reveal(MediaSourceStream::inv);
        self.pos += n;
    }

    /// Makes the newer generation active again, at its first byte.
    fn catch_up(&mut self)
        requires
            old(self).wf(),
            old(self).planned() is CatchUp,
        ensures
            final(self).wf(),
            final(self)@ == old(self)@.refilled(0),
            final(self).source() == old(self).source(),
            final(self).unread() == final(self)@.buffered(),
            final(self).unread() == 0 ==> final(self)@.remaining() == 0,
    {
        reveal(MediaSourceStream::inv);
        let alt_idx: usize = 1 - self.part_idx;
        let alt = self.part(alt_idx);
        self.pos = alt_idx * MAX_CAPACITY;
        self.end_pos = self.pos + alt.len;
        self.part_idx = alt_idx;
    }

    /// Whether `self` is `before` after its source has delivered `n` of the
    /// `amount` bytes it was asked for, to the backing region from index
    /// `start` on.
    spec fn received(&self, before: Self, start: int, amount: usize, n: usize) -> bool {
        &&& self.inner.valid()
        &&& self.inner.content() == before.inner.content()
        &&& self.inner.unfailing() == before.inner.unfailing()
        &&& self.inner.filling() == before.inner.filling()
        &&& self.inner.position() == before.inner.position() + n
        &&& self.buf@.len() == before.buf@.len()
        &&& self.pos == before.pos
        &&& self.end_pos == before.end_pos
        &&& self.cur_capacity == before.cur_capacity
        &&& self.part_idx == before.part_idx
        &&& self.part0 == before.part0
        &&& self.part1 == before.part1
        &&& self.origin == before.origin
        &&& n <= amount
        &&& n > 0 ==> before.inner.position() + n <= before.inner.content().len()
        &&& n == 0 <==> (amount == 0 || before.inner.position()
            >= before.inner.content().len())
        &&& before.inner.filling() ==> n == vstd::math::min(
            amount as int,
            vstd::math::max(0, before.inner.content().len() - before.inner.position()),
        )
        &&& forall|j: int|
            0 <= j < start || start + amount <= j < before.buf@.len() ==> self.buf@[j]
                == before.buf@[j]
        &&& forall|j: int|
            start <= j < start + n ==> self.buf@[j] == before.inner.content()[
                before.inner.position() + (j - start)]
    }

    /// Whether `self` is `before` after a read that its source failed.
    spec fn refused(&self, before: Self) -> bool {
        &&& self.inner.valid()
        &&& self.inner.content() == before.inner.content()
        &&& self.inner.unfailing() == before.inner.unfailing()
        &&& self.inner.filling() == before.inner.filling()
        &&& self.inner.position() == before.inner.position()
        &&& self.buf@ == before.buf@
        &&& self.pos == before.pos
        &&& self.end_pos == before.end_pos
        &&& self.cur_capacity == before.cur_capacity
        &&& self.part_idx == before.part_idx
        &&& self.part0 == before.part0
        &&& self.part1 == before.part1
        &&& self.origin == before.origin
    }

    /// A failed read leaves a stream as it was.
    proof fn lemma_refused(&self, before: Self)
        requires
            before.wf(),
            self.refused(before),
        ensures
            self.wf(),
            self@ == before@,
    {
        reveal(MediaSourceStream::inv);
    }

    /// Where a refill stores what it reads, and where the source stands.
    proof fn lemma_target(&self)
        requires
            self.wf(),
        ensures
            self.inner.valid(),
            self.buf@.len() == 2 * MAX_CAPACITY,
            self.part_idx <= 1,
            self.planned() matches Refill::Fill { amount } ==> self.pos + amount <= 2
                * MAX_CAPACITY,
            self.planned() matches Refill::Grow { amount } ==> amount <= MAX_CAPACITY,
            !self@.behind ==> self.inner.position() == self@.origin + self@.end,
    {
        reveal(MediaSourceStream::inv);
        lemma_grown(self.cur_capacity as nat);
    }

    /// Records the `n` bytes that the source delivered, appended to the
    /// active generation.
    #[verifier::rlimit(40)]
    fn commit_fill(&mut self, Ghost(before): Ghost<Self>, amount: usize, n: usize)
        requires
            before.wf(),
            before.planned() == (Refill::Fill { amount }),
            old(self).received(before, before.pos as int, amount, n),
        ensures
            final(self).wf(),
            final(self).inner == old(self).inner,
            final(self)@ == before@.refilled(n as nat),
            final(self)@.end == before@.end + n,
            n <= amount,
            before@.filling ==> n == before@.delivery(),
            final(self)@.unread() == 0 ==> final(self)@.remaining() == 0,
    {
        reveal(MediaSourceStream::inv);
        let cur_idx: usize = self.part_idx;
        let cur = self.part(cur_idx);
        self.set_part(
            cur_idx,
            Partition { base_pos: cur.base_pos, len: cur.len + n, capacity: cur.capacity },
        );
        self.end_pos += n;
    }

    /// Records the `n` bytes that the source delivered as a fresh generation
    /// of capacity `amount` in place of the older one, and makes it active.
    #[verifier::rlimit(40)]
    fn commit_grow(&mut self, Ghost(before): Ghost<Self>, amount: usize, n: usize)
        requires
            before.wf(),
            before.planned() == (Refill::Grow { amount }),
            old(self).received(before, (1 - before.part_idx) * MAX_CAPACITY, amount, n),
        ensures
            final(self).wf(),
            final(self).inner == old(self).inner,
            final(self)@ == before@.refilled(n as nat),
            final(self)@.end == before@.end + n,
            n <= amount,
            before@.filling ==> n == before@.delivery(),
            final(self)@.unread() == 0 ==> final(self)@.remaining() == 0,
    {
        reveal(MediaSourceStream::inv);
        proof {
            lemma_grown(self.cur_capacity as nat);
        }
        let cur_idx: usize = self.part_idx;
        let alt_idx: usize = 1 - cur_idx;
        let start: usize = alt_idx * MAX_CAPACITY;
        let cur = self.part(cur_idx);
        self.set_part(
            alt_idx,
            Partition { base_pos: cur.base_pos + cur.len as u64, len: n, capacity: amount },
        );
        self.part_idx = alt_idx;
        self.cur_capacity = amount;
        self.pos = start;
        self.end_pos = start + n;
        assert(self.holds(0) && self.holds(1));
        assert(self.inv());
    }

    /// Appends up to `amount` bytes of the source to the active generation.
    fn fill(&mut self, amount: usize) -> (r: Result<(), StreamError>)
        requires
            old(self).wf(),
            old(self).planned() == (Refill::Fill { amount }),
        ensures
            final(self).wf(),
            old(self)@.advances_to(final(self)@, 0),
            final(self).source().requested() == old(self).source().requested().push(amount as nat),
            old(self)@.unfailing ==> r is Ok,
            old(self)@.filling && r is Ok ==> final(self)@.end - old(self)@.end == old(
                self)@.delivery(),
            match r {
                Ok(_) => {
                    &&& final(self)@ == old(self)@.refilled(
                        (final(self)@.end - old(self)@.end) as nat,
                    )
                    &&& final(self)@.end - old(self)@.end <= amount
                    &&& final(self)@.unread() == 0 ==> final(self)@.remaining() == 0
                },
                Err(e) => {
                    &&& e != StreamError::Interrupted
                    &&& final(self)@ == old(self)@
                    &&& e == StreamError::EndOfStream ==> final(self)@.remaining() == 0
                },
            },
    {
        let ghost before = *self;
        proof {
            self.lemma_target();
        }
        let start: usize = self.pos;
        match self.read_source(start, amount) {
            Ok(n) => {
                self.commit_fill(Ghost(before), amount, n);
                Ok(())
            },
            Err(e) => {
                proof {
                    self.lemma_refused(before);
                }
                Err(e)
            },
        }
    }

    /// Replaces the older generation by a fresh one of capacity `amount`,
    /// filled with up to that many bytes of the source, and makes it active.
    fn grow(&mut self, amount: usize) -> (r: Result<(), StreamError>)
        requires
            old(self).wf(),
            old(self).planned() == (Refill::Grow { amount }),
        ensures
            final(self).wf(),
            old(self)@.advances_to(final(self)@, 0),
            final(self).source().requested() == old(self).source().requested().push(amount as nat),
            old(self)@.unfailing ==> r is Ok,
            old(self)@.filling && r is Ok ==> final(self)@.end - old(self)@.end == old(
                self)@.delivery(),
            match r {
                Ok(_) => {
                    &&& final(self)@ == old(self)@.refilled(
                        (final(self)@.end - old(self)@.end) as nat,
                    )
                    &&& final(self)@.end - old(self)@.end <= amount
                    &&& final(self)@.unread() == 0 ==> final(self)@.remaining() == 0
                },
                Err(e) => {
                    &&& e != StreamError::Interrupted
                    &&& final(self)@ == old(self)@
                    &&& e == StreamError::EndOfStream ==> final(self)@.remaining() == 0
                },
            },
    {
        let ghost before = *self;
        proof {
            self.lemma_target();
        }
        let start: usize = (1 - self.part_idx) * MAX_CAPACITY;
        match self.read_source(start, amount) {
            Ok(n) => {
                self.commit_grow(Ghost(before), amount, n);
                Ok(())
            },
            Err(e) => {
                proof {
                    self.lemma_refused(before);
                }
                Err(e)
            },
        }
    }

    /// The unread bytes of the active generation.
    fn unread_slice(&self) -> (out: &[u8])
        requires
            self.wf(),
        ensures
            out@.len() == self.unread(),
            out@ == self@.upcoming(self.unread()),
    {
        proof {
            self.lemma_unread();
            reveal(MediaSourceStream::inv);
        }
        let out = vstd::slice::slice_subrange(self.buf.as_slice(), self.pos, self.end_pos);
        assert(out@ =~= self@.upcoming(self.unread()));
        out
    }

    /// Refills as `refill` does and returns the unread bytes of the active
    /// generation: the bytes that follow the cursor, none only at the end of
    /// the source.
    pub fn fetch_buffer(&mut self) -> (r: Result<&[u8], StreamError>)
        requires
            old(self).wf(),
        ensures
            final(self).source().requested().len() >= old(self).source().requested().len(),
            r matches Err(e) && e != StreamError::EndOfStream ==> final(
                self).source().requested().len() > old(self).source().requested().len(),
            final(self).wf(),
            old(self)@.advances_to(final(self)@, 0),
            old(self)@.buffered() > 0 ==> r is Ok && final(self)@.unread() > 0,
            old(self)@.request() == 0 ==> r is Ok && final(self).source() == old(self).source(),
            old(self)@.unfailing ==> r is Ok,
            final(self).source().requested() == if old(self)@.request() > 0 {
                old(self).source().requested().push(old(self)@.request())
            } else {
                old(self).source().requested()
            },
            old(self)@.filling && r is Ok ==> final(self)@.end - old(self)@.end == old(
                self)@.delivery(),
            match r {
                Ok(unread) => {
                    &&& final(self)@ == old(self)@.refilled(
                        (final(self)@.end - old(self)@.end) as nat,
                    )
                    &&& final(self)@.end - old(self)@.end <= old(self)@.request()
                    &&& unread@.len() == final(self)@.unread()
                    &&& unread@ == final(self)@.upcoming(unread@.len())
                    &&& unread@.len() == 0 ==> final(self)@.remaining() == 0
                },
                Err(e) => {
                    &&& e != StreamError::Interrupted
                    &&& final(self)@ == old(self)@
                    &&& e == StreamError::EndOfStream ==> final(self)@.remaining() == 0
                },
            },
    {
        match self.refill() {
            Ok(_) => Ok(self.unread_slice()),
            Err(e) => Err(e),
        }
    }

    /// As `refill`, but the end of the source is an error.
    pub fn fetch_buffer_or_eof(&mut self) -> (r: Result<(), StreamError>)
        requires
            old(self).wf(),
        ensures
            final(self).source().requested().len() >= old(self).source().requested().len(),
            r matches Err(e) && e != StreamError::EndOfStream ==> final(
                self).source().requested().len() > old(self).source().requested().len(),
            final(self).wf(),
            old(self)@.advances_to(final(self)@, 0),
            old(self)@.buffered() > 0 ==> r is Ok,
            old(self)@.exact_outcome(r, 1),
            old(self)@.request() == 0 ==> final(self).source() == old(self).source(),
            final(self).source().requested() == if old(self)@.request() > 0 {
                old(self).source().requested().push(old(self)@.request())
            } else {
                old(self).source().requested()
            },
            old(self)@.filling && r is Ok ==> final(self)@.end - old(self)@.end == old(
                self)@.delivery(),
            match r {
                Ok(_) => {
                    &&& final(self)@ == old(self)@.refilled(
                        (final(self)@.end - old(self)@.end) as nat,
                    )
                    &&& final(self)@.unread() > 0
                },
                Err(e) => {
                    &&& e != StreamError::Interrupted
                    &&& final(self)@.unread() == 0
                    &&& e == StreamError::EndOfStream ==> final(self)@.remaining() == 0
                },
            },
    {
        match self.fetch_buffer() {
            Ok(buffer) => {
                // An empty buffer marks the end of the source.
                if buffer.len() == 0 {
                    Err(StreamError::EndOfStream)
                } else {
                    Ok(())
                }
            },
            Err(e) => Err(e),
        }
    }

    /// The unread bytes of the active generation are the source's bytes at
    /// the cursor.
    proof fn lemma_unread(&self)
        requires
            self.wf(),
        ensures
            self@.wf(),
            self.unread() <= self@.buffered(),
            self.pos + self.unread() <= self.buf@.len(),
            self.unread() > 0 ==> self@.origin + self@.pos + self.unread() <= self@.source.len(),
            forall|j: int|
                self.pos <= j < self.pos + self.unread() ==> #[trigger] self.buf@[j]
                    == self@.source[self@.origin + self@.pos + (j - self.pos)],
    {
        reveal(MediaSourceStream::inv);
    }

    /// Reads one byte.
    pub fn read_byte(&mut self) -> (r: Result<u8, StreamError>)
        requires
            old(self).wf(),
        ensures
            final(self).source().requested().len() >= old(self).source().requested().len(),
            r matches Err(e) && e != StreamError::EndOfStream ==> final(
                self).source().requested().len() > old(self).source().requested().len(),
            final(self).source().requested() == if old(self)@.request() > 0 {
                old(self).source().requested().push(old(self)@.request())
            } else {
                old(self).source().requested()
            },
            old(self)@.exact_outcome(r, 1),
            r is Ok ==> final(self)@ == old(self)@.refilled(
                (final(self)@.end - old(self)@.end) as nat,
            ).skipped(1),
            old(self)@.filling && r is Ok ==> final(self)@.end - old(self)@.end == old(
                self)@.delivery(),
            old(self)@.request() == 0 ==> final(self).source() == old(self).source(),
            final(self).wf(),
            old(self)@.buffered() > 0 ==> r is Ok,
            match r {
                Ok(b) => {
                    &&& old(self)@.remaining() > 0
                    &&& b == old(self)@.next_byte()
                    &&& old(self)@.advances_to(final(self)@, 1)
                },
                Err(e) => {
                    &&& e != StreamError::Interrupted
                    &&& old(self)@.advances_to(final(self)@, 0)
                    &&& e == StreamError::EndOfStream ==> final(self)@.remaining() == 0
                },
            },
    {
        if self.available() < 1 {
            match self.fetch_buffer_or_eof() {
                Ok(_) => {},
                Err(e) => {
                    return Err(e);
                },
            }
        }
        let b: u8 = self.peek(0);
        self.consume(1);
        Ok(b)
    }

    /// Reads two bytes and returns them in stream order.
    pub fn read_double_bytes(&mut self) -> (r: Result<[u8; 2], StreamError>)
        requires
            old(self).wf(),
        ensures
            final(self).source().requested().len() >= old(self).source().requested().len(),
            r matches Err(e) && e != StreamError::EndOfStream ==> final(
                self).source().requested().len() > old(self).source().requested().len(),
            old(self)@.exact_outcome(r, 2),
            old(self)@.buffered() >= 2 ==> final(self)@ == old(self)@.skipped(2) && final(
                self).source() == old(self).source(),
            final(self).wf(),
            old(self)@.buffered() >= 2 ==> r is Ok,
            match r {
                Ok(bytes) => {
                    &&& old(self)@.remaining() >= 2
                    &&& bytes@ == old(self)@.upcoming(2)
                    &&& old(self)@.advances_to(final(self)@, 2)
                },
                Err(e) => {
                    &&& e != StreamError::Interrupted
                    &&& old(self)@.stops_within(final(self)@, 2)
                    &&& e == StreamError::EndOfStream ==> final(self)@.remaining() == 0
                },
            },
    {
        if self.available() >= 2 {
            let bytes: [u8; 2] = [self.peek(0), self.peek(1)];
            self.consume(2);
            proof {
                old(self).lemma_unread();
                assert(bytes@ =~= old(self)@.upcoming(2));
            }
            Ok(bytes)
        } else {
            let b0: u8 = match self.read_byte() {
                Ok(b) => b,
                Err(e) => {
                    return Err(e);
                },
            };
            let b1: u8 = match self.read_byte() {
                Ok(b) => b,
                Err(e) => {
                    return Err(e);
                },
            };
            let bytes: [u8; 2] = [b0, b1];
            assert(bytes@ =~= old(self)@.upcoming(2));
            Ok(bytes)
        }
    }

    /// Reads three bytes and returns them in stream order.
    pub fn read_triple_bytes(&mut self) -> (r: Result<[u8; 3], StreamError>)
        requires
            old(self).wf(),
        ensures
            final(self).source().requested().len() >= old(self).source().requested().len(),
            r matches Err(e) && e != StreamError::EndOfStream ==> final(
                self).source().requested().len() > old(self).source().requested().len(),
            old(self)@.exact_outcome(r, 3),
            old(self)@.buffered() >= 3 ==> final(self)@ == old(self)@.skipped(3) && final(
                self).source() == old(self).source(),
            final(self).wf(),
            old(self)@.buffered() >= 3 ==> r is Ok,
            match r {
                Ok(bytes) => {
                    &&& old(self)@.remaining() >= 3
                    &&& bytes@ == old(self)@.upcoming(3)
                    &&& old(self)@.advances_to(final(self)@, 3)
                },
                Err(e) => {
                    &&& e != StreamError::Interrupted
                    &&& old(self)@.stops_within(final(self)@, 3)
                    &&& e == StreamError::EndOfStream ==> final(self)@.remaining() == 0
                },
            },
    {
        if self.available() >= 3 {
            let bytes: [u8; 3] = [self.peek(0), self.peek(1), self.peek(2)];
            self.consume(3);
            proof {
                old(self).lemma_unread();
                assert(bytes@ =~= old(self)@.upcoming(3));
            }
            Ok(bytes)
        } else {
            let b0: u8 = match self.read_byte() {
                Ok(b) => b,
                Err(e) => {
                    return Err(e);
                },
            };
            let b1: u8 = match self.read_byte() {
                Ok(b) => b,
                Err(e) => {
                    return Err(e);
                },
            };
            let b2: u8 = match self.read_byte() {
                Ok(b) => b,
                Err(e) => {
                    return Err(e);
                },
            };
            let bytes: [u8; 3] = [b0, b1, b2];
            assert(bytes@ =~= old(self)@.upcoming(3));
            Ok(bytes)
        }
    }

    /// Reads four bytes and returns them in stream order.
    pub fn read_quad_bytes(&mut self) -> (r: Result<[u8; 4], StreamError>)
        requires
            old(self).wf(),
        ensures
            final(self).source().requested().len() >= old(self).source().requested().len(),
            r matches Err(e) && e != StreamError::EndOfStream ==> final(
                self).source().requested().len() > old(self).source().requested().len(),
            old(self)@.exact_outcome(r, 4),
            old(self)@.buffered() >= 4 ==> final(self)@ == old(self)@.skipped(4) && final(
                self).source() == old(self).source(),
            final(self).wf(),
            old(self)@.buffered() >= 4 ==> r is Ok,
            match r {
                Ok(bytes) => {
                    &&& old(self)@.remaining() >= 4
                    &&& bytes@ == old(self)@.upcoming(4)
                    &&& old(self)@.advances_to(final(self)@, 4)
                },
                Err(e) => {
                    &&& e != StreamError::Interrupted
                    &&& old(self)@.stops_within(final(self)@, 4)
                    &&& e == StreamError::EndOfStream ==> final(self)@.remaining() == 0
                },
            },
    {
        if self.available() >= 4 {
            let bytes: [u8; 4] = [self.peek(0), self.peek(1), self.peek(2), self.peek(3)];
            self.consume(4);
            proof {
                old(self).lemma_unread();
                assert(bytes@ =~= old(self)@.upcoming(4));
            }
            Ok(bytes)
        } else {
            let b0: u8 = match self.read_byte() {
                Ok(b) => b,
                Err(e) => {
                    return Err(e);
                },
            };
            let b1: u8 = match self.read_byte() {
                Ok(b) => b,
                Err(e) => {
                    return Err(e);
                },
            };
            let b2: u8 = match self.read_byte() {
                Ok(b) => b,
                Err(e) => {
                    return Err(e);
                },
            };
            let b3: u8 = match self.read_byte() {
                Ok(b) => b,
                Err(e) => {
                    return Err(e);
                },
            };
            let bytes: [u8; 4] = [b0, b1, b2, b3];
            assert(bytes@ =~= old(self)@.upcoming(4));
            Ok(bytes)
        }
    }

    /// Reads into `buf` until it is full or the source is exhausted, and
    /// returns the number of bytes read: 0 at the end of the source.
    #[verifier::rlimit(40)]
    pub fn read(&mut self, buf: &mut [u8]) -> (r: Result<usize, StreamError>)
        requires
            old(self).wf(),
        ensures
            final(self).source().requested().len() >= old(self).source().requested().len(),
            r matches Err(e) && e != StreamError::EndOfStream ==> final(
                self).source().requested().len() > old(self).source().requested().len(),
            old(self)@.buffered() >= old(buf)@.len() ==> final(self)@ == old(self)@.skipped(
                old(buf)@.len(),
            ) && final(self).source() == old(self).source(),
            final(self).wf(),
            old(self)@.bulk_read(final(self)@, old(buf)@, final(buf)@, r),
            old(self)@.buffered() >= old(buf)@.len() ==> r is Ok,
    {
        let len: usize = buf.len();
        let mut filled: usize = 0;
        let mut exhausted: bool = false;
        while filled < len && !exhausted
            invariant
                self.wf(),
                old(self)@.wf(),
                filled <= len,
                len == old(buf)@.len(),
                buf@.len() == len,
                old(self)@.advances_to(self@, filled as nat),
                filled > 0 ==> old(self)@.origin + old(self)@.pos + filled <= old(
                    self)@.source.len(),
                exhausted ==> self@.remaining() == 0,
                self.source().requested().len() >= old(self).source().requested().len(),
                old(self)@.buffered() >= len ==> self@.buffered() >= len - filled && !exhausted,
                old(self)@.buffered() >= len ==> self@ == old(self)@.skipped(filled as nat)
                    && self.source() == old(self).source(),
                forall|j: int|
                    0 <= j < filled ==> buf@[j] == old(self)@.source[old(self)@.origin + old(
                        self)@.pos + j],
                forall|j: int| filled <= j < len ==> buf@[j] == old(buf)@[j],
            decreases len - filled + if exhausted { 0int } else { 1int },
        {
            let unread: &[u8] = match self.fetch_buffer() {
                Ok(unread) => unread,
                Err(e) => {
                    assert(buf@.subrange(0, filled as int) =~= old(self)@.upcoming(filled as nat));
                    return Err(e);
                },
            };
            let available: usize = unread.len();
            if available == 0 {
                exhausted = true;
            } else {
                let count: usize = if available < len - filled {
                    available
                } else {
                    len - filled
                };
                copy_front(unread, buf, filled, count);
                self.consume(count);
                filled += count;
            }
        }
        proof {
            assert(buf@.subrange(0, filled as int) =~= old(self)@.upcoming(filled as nat));
            assert(buf@.subrange(filled as int, len as int) =~= old(buf)@.subrange(
                filled as int,
                len as int,
            ));
        }
        Ok(filled)
    }

    /// Reads as `read` does.
    pub fn read_buf(&mut self, buf: &mut [u8]) -> (r: Result<usize, StreamError>)
        requires
            old(self).wf(),
        ensures
            final(self).source().requested().len() >= old(self).source().requested().len(),
            r matches Err(e) && e != StreamError::EndOfStream ==> final(
                self).source().requested().len() > old(self).source().requested().len(),
            old(self)@.buffered() >= old(buf)@.len() ==> final(self)@ == old(self)@.skipped(
                old(buf)@.len(),
            ) && final(self).source() == old(self).source(),
            final(self).wf(),
            old(self)@.bulk_read(final(self)@, old(buf)@, final(buf)@, r),
            old(self)@.buffered() >= old(buf)@.len() ==> r is Ok,
    {
        self.read(buf)
    }

    /// Fills `buf`, or fails with `EndOfStream` where the source ends
    /// first. On that failure everything that was left has been consumed.
    pub fn read_buf_exact(&mut self, buf: &mut [u8]) -> (r: Result<(), StreamError>)
        requires
            old(self).wf(),
        ensures
            final(self).source().requested().len() >= old(self).source().requested().len(),
            r matches Err(e) && e != StreamError::EndOfStream ==> final(
                self).source().requested().len() > old(self).source().requested().len(),
            old(self)@.exact_outcome(r, old(buf)@.len()),
            old(self)@.buffered() >= old(buf)@.len() ==> final(self)@ == old(self)@.skipped(
                old(buf)@.len(),
            ) && final(self).source() == old(self).source(),
            final(self).wf(),
            final(buf)@.len() == old(buf)@.len(),
            old(self)@.buffered() >= old(buf)@.len() ==> r is Ok,
            match r {
                Ok(_) => {
                    &&& old(self)@.remaining() >= old(buf)@.len()
                    &&& final(buf)@ == old(self)@.upcoming(old(buf)@.len())
                    &&& old(self)@.advances_to(final(self)@, old(buf)@.len())
                },
                Err(e) => {
                    &&& e != StreamError::Interrupted
                    &&& old(self)@.stops_within(final(self)@, old(buf)@.len())
                    &&& final(buf)@.subrange(0, final(self)@.pos - old(self)@.pos) == old(
                        self)@.upcoming((final(self)@.pos - old(self)@.pos) as nat)
                    &&& e == StreamError::EndOfStream ==> final(self)@.remaining() == 0
                },
            },
    {
        let len: usize = buf.len();
        match self.read(buf) {
            Ok(n) => {
                if n == len {
                    assert(buf@ =~= buf@.subrange(0, n as int));
                    Ok(())
                } else {
                    Err(StreamError::EndOfStream)
                }
            },
            Err(e) => Err(e),
        }
    }

    /// Skips `count` bytes.
    pub fn ignore_bytes(&mut self, count: u64) -> (r: Result<(), StreamError>)
        requires
            old(self).wf(),
        ensures
            final(self).source().requested().len() >= old(self).source().requested().len(),
            r matches Err(e) && e != StreamError::EndOfStream ==> final(
                self).source().requested().len() > old(self).source().requested().len(),
            old(self)@.exact_outcome(r, count as nat),
            old(self)@.buffered() >= count ==> final(self)@ == old(self)@.skipped(count as nat)
                && final(self).source() == old(self).source(),
            final(self).wf(),
            old(self)@.buffered() >= count ==> r is Ok,
            count == 0 ==> final(self)@ == old(self)@,
            match r {
                Ok(_) => {
                    &&& old(self)@.remaining() >= count
                    &&& old(self)@.advances_to(final(self)@, count as nat)
                },
                Err(e) => {
                    &&& e != StreamError::Interrupted
                    &&& old(self)@.stops_within(final(self)@, count as nat)
                    &&& e == StreamError::EndOfStream ==> final(self)@.remaining() == 0
                },
            },
    {
        let mut left: u64 = count;
        while left > 0
            invariant
                self.wf(),
                old(self)@.wf(),
                left <= count,
                left == count ==> self@ == old(self)@,
                old(self)@.advances_to(self@, (count - left) as nat),
                left < count ==> old(self)@.origin + old(self)@.pos + (count - left) <= old(
                    self)@.source.len(),
                old(self)@.buffered() >= count ==> self@.buffered() >= left,
                self.source().requested().len() >= old(self).source().requested().len(),
                old(self)@.buffered() >= count ==> self@ == old(self)@.skipped(
                    (count - left) as nat,
                )
                    && self.source() == old(self).source(),
            decreases left,
        {
            match self.fetch_buffer_or_eof() {
                Ok(_) => {},
                Err(e) => {
                    return Err(e);
                },
            }
            let available: usize = self.available();
            let discard: usize = if (available as u64) < left {
                available
            } else {
                left as usize
            };
            proof {
                self.lemma_unread();
            }
            self.consume(discard);
            left -= discard as u64;
        }
        Ok(())
    }

    /// The source that the stream reads from.
    pub closed spec fn source(&self) -> S {
        self.inner
    }

    /// Gives up the stream and hands back its source, which stands where
    /// the stream has read up to.
    pub fn into_inner(self) -> (source: S)
        requires
            self.wf(),
        ensures
            source == self.source(),
            source.valid(),
            source.content() == self@.source,
            source.position() == self@.origin + self@.end,
    {
        reveal(MediaSourceStream::inv);
        self.inner
    }

    /// Whether the source claims to support seeking.
    pub fn is_seekable(&self) -> (r: bool)
        requires
            self.wf(),
        ensures
            r == self.source().seekable(),
    {
        reveal(MediaSourceStream::inv);
        self.inner.is_seekable()
    }

    /// The total length of the source, where the source knows it.
    pub fn len(&self) -> (r: Option<u64>)
        requires
            self.wf(),
        ensures
            r == self.source().known_len(),
            r matches Some(n) ==> n == self@.source.len(),
    {
        reveal(MediaSourceStream::inv);
        self.inner.len()
    }

    /// Moves the cursor to the position that `request` names, counted in
    /// source offsets, and drops everything buffered.
    ///
    /// A relative request of 0 only reports the position. Any other request
    /// is handed to the source, a relative one as the distance from where
    /// the source stands. Where the source refuses, nothing changes. A
    /// relative request too far back to be expressed as such a distance is
    /// refused as `InvalidInput` without asking the source.
    pub fn seek(&mut self, request: SeekFrom) -> (r: Result<u64, StreamError>)
        requires
            old(self).wf(),
        ensures
            final(self).wf(),
            match request {
                SeekFrom::Current(delta) if delta == 0 => {
                    &&& r == Ok::<u64, StreamError>(old(self)@.pos as u64)
                    &&& final(self)@ == old(self)@
                    &&& final(self).source() == old(self).source()
                },
                SeekFrom::Current(delta) if delta - old(self)@.buffered() < i64::MIN => {
                    &&& r == Err::<u64, StreamError>(StreamError::InvalidInput)
                    &&& final(self)@ == old(self)@
                    &&& final(self).source() == old(self).source()
                },
                _ => {
                    &&& r == old(self).source().seek_outcome(old(self)@.handed_on(request))
                    &&& match r {
                        Ok(p) => {
                            &&& p == seek_target(
                                (old(self)@.origin + old(self)@.pos) as int,
                                old(self)@.source.len(),
                                request,
                            )
                            &&& final(self)@ == old(self)@.reset(p as nat)
                        },
                        Err(_) => final(self)@ == old(self)@,
                    }
                },
            },
    {
        let outcome: Result<u64, StreamError> = match request {
            SeekFrom::Current(delta) => {
                if delta == 0 {
                    return Ok(self.pos());
                }
                // The source is ahead of the cursor by what is buffered.
                let ahead: i64 = self.buffered_bytes() as i64;
                if delta < i64::MIN + ahead {
                    return Err(StreamError::InvalidInput);
                }
                reveal(MediaSourceStream::inv);
                self.inner.seek(SeekFrom::Current(delta - ahead))
            },
            _ => {
                reveal(MediaSourceStream::inv);
                self.inner.seek(request)
            },
        };
        match outcome {
            Ok(p) => {
                reveal(MediaSourceStream::inv);
                self.invalidate(p);
                Ok(p)
            },
            Err(e) => {
                reveal(MediaSourceStream::inv);
                Err(e)
            },
        }
    }
}

/// Copies the first `count` bytes of `src` to `dest`, from index `at` on.
fn copy_front(src: &[u8], dest: &mut [u8], at: usize, count: usize)
    requires
        count <= src@.len(),
        at + count <= old(dest)@.len(),
    ensures
        final(dest)@.len() == old(dest)@.len(),
        forall|j: int|
            0 <= j < at || at + count <= j < old(dest)@.len() ==> final(dest)@[j] == old(dest)@[j],
        forall|j: int| at <= j < at + count ==> final(dest)@[j] == src@[j - at],
{
    let total: usize = dest.len();
    let mut i: usize = 0;
    while i < count
        invariant
            i <= count,
            count <= src@.len(),
            total == dest@.len(),
            at + count <= total,
            dest@.len() == old(dest)@.len(),
            forall|j: int| 0 <= j < at || at + i <= j < total ==> dest@[j] == old(dest)@[j],
            forall|j: int| at <= j < at + i ==> dest@[j] == src@[j - at],
        decreases count - i,
    {
        dest[at + i] = src[i];
        i += 1;
    }
}

} // verus!
