//! How many slots a ring gets for the number that was asked for.

use vstd::prelude::*;
use crate::ring::is_ring_size;

verus! {

/// The largest number of submission slots.
pub const MAX_ENTRIES: u32 = 32768;

/// The largest number of completion slots.
pub const MAX_CQ_ENTRIES: u32 = 65536;

/// Whether `n` is a power of two.
pub open spec fn is_power_of_two(n: u32) -> bool {
    n != 0 && n & ((n - 1) as u32) == 0
}

/// The first of `r`, `2 * r`, `4 * r`, ... that is not below `n`.
pub open spec fn doubled_up_to(r: int, n: int) -> int
    decreases (if r < n { n - r } else { 0 }),
{
    if r <= 0 || r >= n {
        r
    } else {
        doubled_up_to(2 * r, n)
    }
}

/// The smallest power of two that is not below `n`.
pub open spec fn rounded_up(n: int) -> int {
    doubled_up_to(1, n)
}

/// Twice a power of two is a power of two.
pub proof fn lemma_double_power_of_two(r: u32)
    requires
        is_power_of_two(r),
        r < 0x8000_0000,
    ensures
        is_power_of_two((2 * r) as u32),
{
    let d: u32 = (2 * r) as u32;
    assert(d != 0 && d & ((d - 1) as u32) == 0) by (bit_vector)
        requires
            r != 0,
            r & ((r - 1) as u32) == 0,
            r < 0x8000_0000,
            d == 2 * r,
    ;
}

/// A power of two can be the size of a ring.
pub proof fn lemma_power_of_two_is_ring_size(r: u32)
    requires
        is_power_of_two(r),
    ensures
        is_ring_size(r as int),
{
    assert(0x1_0000_0000u64 % (r as u64) == 0) by (bit_vector)
        requires
            r != 0,
            r & ((r - 1) as u32) == 0,
    ;
}

proof fn lemma_doubled_up_to(r: u32, n: u32)
    requires
        is_power_of_two(r),
        1 <= n <= 0x8000_0000,
        r < 2 * n,
    ensures
        n <= doubled_up_to(r as int, n as int) < 2 * n,
        doubled_up_to(r as int, n as int) <= 0x8000_0000,
        is_power_of_two(doubled_up_to(r as int, n as int) as u32),
    decreases (if r < n { n - r } else { 0 }),
{
    if r < n {
        lemma_double_power_of_two(r);
        lemma_doubled_up_to((2 * r) as u32, n);
    } else {
        assert(r <= 0x8000_0000) by (bit_vector)
            requires
                r != 0,
                r & ((r - 1) as u32) == 0,
        ;
    }
}

/// `rounded_up(n)` is a power of two, lies in `n .. 2 * n`, and can be the size
/// of a ring.
pub proof fn lemma_rounded_up(n: u32)
    requires
        1 <= n <= 0x8000_0000,
    ensures
        n <= rounded_up(n as int) < 2 * n,
        is_power_of_two(rounded_up(n as int) as u32),
        is_ring_size(rounded_up(n as int)),
{
    assert(1u32 & ((1u32 - 1) as u32) == 0) by (bit_vector);
    lemma_doubled_up_to(1, n);
    lemma_power_of_two_is_ring_size(rounded_up(n as int) as u32);
}

/// Rounds `n` up to a power of two, or gives `None` where that power does
/// not fit.
pub fn round_up(n: u32) -> (r: Option<u32>)
    ensures
        r == if n <= 0x8000_0000 {
            Some(rounded_up(n as int) as u32)
        } else {
            None::<u32>
        },
        n <= 0x8000_0000 ==> rounded_up(n as int) <= 0x8000_0000,
{
    if n > 0x8000_0000 {
        return None;
    }
    if n == 0 {
        return Some(1);
    }
    let mut r: u32 = 1;
    proof {
        assert(1u32 & ((1u32 - 1) as u32) == 0) by (bit_vector);
        lemma_doubled_up_to(1, n);
    }
    while r < n
        invariant
            1 <= n <= 0x8000_0000,
            1 <= r < 2 * n,
            is_power_of_two(r),
            doubled_up_to(r as int, n as int) == rounded_up(n as int),
            rounded_up(n as int) <= 0x8000_0000,
        decreases (if r < n { n - r } else { 0 }),
    {
        proof {
            lemma_double_power_of_two(r);
        }
        r = 2 * r;
    }
    Some(r)
}

} // verus!
