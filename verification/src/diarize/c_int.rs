//! Lengths and counts as the engine's C interface takes them.
use vstd::prelude::*;

verus! {

/// The 32-bit two's complement number that is congruent to `n` modulo 2^32.
pub open spec fn wrapped(n: int) -> int {
    (n + 0x8000_0000) % 0x1_0000_0000 - 0x8000_0000
}

/// Converts a count to a C `int`, wrapping around where it does not fit.
pub fn to_c_int(n: usize) -> (r: i32)
    ensures
        r == wrapped(n as int),
        n <= i32::MAX ==> r == n,
        (n - r) % 0x1_0000_0000 == 0,
{
    let r: i32 = #[verifier::truncate]
    (n as i32);
    assert((n as i32) == (n + 0x8000_0000) % 0x1_0000_0000 - 0x8000_0000) by (bit_vector);
    r
}

} // verus!
