//! The cycle counter's value, as the hardware hands it out.
use vstd::prelude::*;

verus! {

/// Nanoseconds in a millisecond.
pub const ONE_MILLISECOND: u64 = 1_000_000;

/// Nanoseconds in a second.
pub const ONE_SECOND: u64 = 1_000_000_000;

/// The counter's value from the two 32-bit halves in which it is read.
pub fn join_halves(high: u32, low: u32) -> (ticks: u64)
    ensures
        ticks == high * 0x1_0000_0000 + low,
{
    let wide_high: u64 = high as u64;
    let wide_low: u64 = low as u64;
    assert((wide_high << 32) | wide_low == wide_high * 0x1_0000_0000 + wide_low) by (bit_vector)
        requires
            wide_high <= 0xffff_ffff,
            wide_low <= 0xffff_ffff,
    ;
    (wide_high << 32) | wide_low
}

} // verus!
