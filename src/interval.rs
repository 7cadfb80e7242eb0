use vstd::prelude::*;

verus! {

/// Ticks elapsed from `previous` to `now` on a free-running 32-bit counter
/// that wraps around at 2^32.
pub open spec fn ticks_between(previous: u32, now: u32) -> int {
    (now as int - previous as int) % 0x1_0000_0000
}

/// The interval between two timestamps of a wrapping 32-bit tick counter.
pub fn elapsed(previous: u32, now: u32) -> (r: u32)
    ensures
        r as int == ticks_between(previous, now),
        previous <= now ==> r == now - previous,
{
    now.wrapping_sub(previous)
}

} // verus!
