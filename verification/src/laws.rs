//! What holds of every stream, stated over stream views.
//!
//! The methods of a stream say in their contracts how the view after a call
//! follows from the view before it. The statements here combine several
//! such steps.

use vstd::prelude::*;
use crate::source::SeekFrom;
use crate::source::seek_target;
use crate::capacity::{grown, is_power_of_two, INIT_CAPACITY, MAX_CAPACITY};
use crate::view::{Refill, StreamView};

verus! {

/// The sum of the lengths in a read plan.
pub open spec fn plan_total(plan: Seq<nat>) -> nat
    decreases plan.len(),
{
    if plan.len() == 0 {
        0
    } else {
        plan[0] + plan_total(plan.drop_first())
    }
}

/// The bytes that successive reads of the lengths in `plan` deliver, put
/// together, when the first read starts at `v`.
pub open spec fn plan_reads(v: StreamView, plan: Seq<nat>) -> Seq<u8>
    decreases plan.len(),
{
    if plan.len() == 0 {
        Seq::empty()
    } else {
        v.upcoming(plan[0]) + plan_reads(v.skipped(plan[0]), plan.drop_first())
    }
}

/// Reading by a plan delivers the same bytes as one read of the plan's
/// total length.
pub proof fn law_read_plan(v: StreamView, plan: Seq<nat>)
    requires
        plan_total(plan) <= v.remaining(),
    ensures
        plan_reads(v, plan) == v.upcoming(plan_total(plan)),
    decreases plan.len(),
{
    if plan.len() == 0 {
        assert(plan_reads(v, plan) =~= v.upcoming(0));
    } else {
        let first = plan[0];
        let rest = plan.drop_first();
        law_read_plan(v.skipped(first), rest);
        assert(plan_reads(v, plan) =~= v.upcoming(plan_total(plan)));
    }
}

/// Two read plans of the same total length deliver the same bytes.
pub proof fn law_plans_agree(v: StreamView, first: Seq<nat>, second: Seq<nat>)
    requires
        plan_total(first) == plan_total(second),
        plan_total(first) <= v.remaining(),
    ensures
        plan_reads(v, first) == plan_reads(v, second),
{
    law_read_plan(v, first);
    law_read_plan(v, second);
}

/// The plan that reads `n` bytes one at a time.
pub open spec fn bytewise(n: nat) -> Seq<nat> {
    Seq::new(n, |i: int| 1nat)
}

/// The plan that reads one byte at a time has as many bytes as reads.
pub proof fn lemma_bytewise_total(n: nat)
    ensures
        plan_total(bytewise(n)) == n,
    decreases n,
{
    if n > 0 {
        lemma_bytewise_total((n - 1) as nat);
        assert(bytewise(n).drop_first() =~= bytewise((n - 1) as nat));
    }
}

/// Reading `n` bytes one by one and reading them in one bulk call deliver
/// the same bytes, where the source has that many left.
pub proof fn law_bytewise_equals_bulk(v: StreamView, n: nat)
    requires
        n <= v.remaining(),
    ensures
        plan_reads(v, bytewise(n)) == v.upcoming(n),
{
    lemma_bytewise_total(n);
    law_read_plan(v, bytewise(n));
}

/// After `n` bytes were read, a rewind by `n` that the window allows puts
/// the cursor back where the read began, and reading `n` bytes again
/// delivers the same bytes.
pub proof fn law_rewind_round_trip(before: StreamView, after: StreamView, n: nat)
    requires
        before.advances_to(after, n),
        n <= after.rewindable(),
    ensures
        after.rewound(n).pos == before.pos,
        after.rewound(n).upcoming(n) == before.upcoming(n),
        after.rewound(n).start == after.start,
        after.rewound(n).end == after.end,
{
}

/// What was just read can be read again: after a read of up to
/// `INIT_CAPACITY` bytes, a rewind by as many is always granted.
pub proof fn law_rewind_after_read(before: StreamView, after: StreamView, n: nat)
    requires
        before.wf(),
        before.advances_to(after, n),
        n <= INIT_CAPACITY,
    ensures
        n <= after.rewindable(),
        after.rewound(n).pos == before.pos,
        after.rewound(n).upcoming(n) == before.upcoming(n),
{
}

/// Steps of reading add up: a read of `n` bytes followed by one of `m` is
/// a step that a read of `n + m` bytes could have made.
pub proof fn law_reads_compose(a: StreamView, b: StreamView, c: StreamView, n: nat, m: nat)
    requires
        a.advances_to(b, n),
        b.advances_to(c, m),
    ensures
        a.advances_to(c, n + m),
{
}

/// A rewind by more than the window holds moves nothing.
pub proof fn law_rewind_too_far(v: StreamView, n: nat)
    requires
        n > v.rewindable(),
    ensures
        v.rewound(n) == v,
{
}

/// After a seek to an absolute position the stream stands there with
/// nothing buffered and nothing to rewind to, and its next bytes are those
/// of the source from that position on.
pub proof fn law_absolute_seek(v: StreamView, target: u64, n: nat)
    requires
        target + n <= v.source.len(),
    ensures
        seek_target((v.origin + v.pos) as int, v.source.len(), SeekFrom::Start(target)) == target,
        v.reset(target as nat).pos == target,
        v.reset(target as nat).buffered() == 0,
        v.reset(target as nat).rewindable() == 0,
        v.reset(target as nat).upcoming(n) == v.source.subrange(
            target as int,
            target + n,
        ),
{
    assert(v.reset(target as nat).upcoming(n) =~= v.source.subrange(
        target as int,
        target + n,
    ));
}

/// The capacity of the generation that the `k`-th growth creates, counted
/// from a fresh or reset stream.
pub open spec fn capacity_after(k: nat) -> nat
    decreases k,
{
    if k == 0 {
        INIT_CAPACITY as nat
    } else {
        grown(capacity_after((k - 1) as nat))
    }
}

/// Capacities never shrink while reading forward: each growth doubles the
/// capacity until it has reached the maximum, and keeps it there.
pub proof fn law_capacity_growth(k: nat)
    ensures
        INIT_CAPACITY <= capacity_after(k) <= MAX_CAPACITY,
        is_power_of_two(capacity_after(k)),
        capacity_after(k) <= capacity_after(k + 1),
        capacity_after(k) < MAX_CAPACITY ==> capacity_after(k + 1) == 2 * capacity_after(k),
        capacity_after(k) == MAX_CAPACITY ==> capacity_after(k + 1) == MAX_CAPACITY,
        k >= 5 ==> capacity_after(k) == MAX_CAPACITY,
    decreases k,
{
    reveal_with_fuel(is_power_of_two, 17);
    reveal_with_fuel(capacity_after, 7);
    if k > 0 {
        law_capacity_growth((k - 1) as nat);
    }
}

/// Moving the cursor by nothing changes nothing.
pub proof fn law_skip_nothing(v: StreamView)
    requires
        v.wf(),
    ensures
        v.skipped(0) == v,
        v.rewound(0) == v,
{
}

/// The unread bytes of the active generation are among the buffered ones.
pub proof fn law_unread_is_buffered(v: StreamView)
    requires
        v.wf(),
    ensures
        v.unread() <= v.buffered(),
        v.buffered() <= v.remaining() || v.buffered() == 0,
        v.plan() is Ready <==> v.unread() > 0,
        v.buffered() > 0 ==> v.request() == 0,
{
}

/// A stream just bound or reset asks its source for `INIT_CAPACITY` bytes
/// first.
pub proof fn law_first_request(v: StreamView, p: nat)
    ensures
        v.reset(p).plan() == (Refill::Fill { amount: INIT_CAPACITY }),
        v.reset(p).request() == INIT_CAPACITY,
        StreamView::bound(v.source, v.origin, v.unfailing, v.filling).request() == INIT_CAPACITY,
{
}

/// Reading forward over a source that fills every request, each refill of
/// a generation that is full and consumed asks for the capacity that
/// follows: twice as much, up to the maximum. The same holds after the
/// first generation was filled in one piece.
pub proof fn law_requests_double(v: StreamView)
    requires
        v.wf(),
        v.unread() == 0,
        !v.behind,
        v.request() <= v.source_left(),
    ensures
        v.delivery() == v.request(),
        v.plan() is Grow ==> v.request() == grown(v.capacity),
        v.plan() is Fill ==> v.request() == v.room,
        ({
            let next = v.refilled(v.request()).skipped(v.request());
            &&& next.unread() == 0
            &&& !next.behind
            &&& next.plan() is Grow
            &&& next.capacity == if v.plan() is Grow {
                grown(v.capacity)
            } else {
                v.capacity
            }
            &&& next.request() == grown(next.capacity)
            &&& next.request() >= v.request()
            &&& next.request() <= MAX_CAPACITY
        }),
{
    crate::capacity::lemma_grown(v.capacity);
    if v.plan() is Grow {
        crate::capacity::lemma_grown(grown(v.capacity));
    }
}

} // verus!
