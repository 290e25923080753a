//! How large a generation of buffered bytes may be.

use vstd::prelude::*;

verus! {

/// The largest number of bytes one generation may hold.
pub const MAX_CAPACITY: usize = 32768;

/// The number of bytes the first generation after a reset may hold.
pub const INIT_CAPACITY: usize = 1024;

/// Whether `n` is 1, 2, 4, 8, ...
pub open spec fn is_power_of_two(n: nat) -> bool
    decreases n,
{
    n == 1 || (n > 1 && n % 2 == 0 && is_power_of_two(n / 2))
}

/// The capacity that follows `capacity`: twice as much, up to the maximum.
pub open spec fn grown(capacity: nat) -> nat {
    if 2 * capacity < MAX_CAPACITY {
        2 * capacity
    } else {
        MAX_CAPACITY as nat
    }
}

/// The capacity that follows a valid capacity is valid, and no smaller.
pub proof fn lemma_grown(capacity: nat)
    requires
        INIT_CAPACITY <= capacity <= MAX_CAPACITY,
        is_power_of_two(capacity),
    ensures
        capacity <= grown(capacity) <= MAX_CAPACITY,
        is_power_of_two(grown(capacity)),
        capacity < MAX_CAPACITY ==> grown(capacity) == 2 * capacity,
        capacity == MAX_CAPACITY ==> grown(capacity) == MAX_CAPACITY,
{
    reveal_with_fuel(is_power_of_two, 17);
}

} // verus!
