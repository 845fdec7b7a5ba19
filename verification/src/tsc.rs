//! The time stamp counter and its deadline register.

use vstd::prelude::*;

verus! {

/// The deadline model-specific register.
pub const TSC_DEADLINE_MSR: u32 = 0x6e0;

/// The counter from the two halves `rdtscp` gives: the high half from
/// `rdx`, the low from the low 32 bits of `rax`.
pub fn combine(rdx: u64, rax: u64) -> (r: u64)
    requires
        rdx <= u32::MAX,
    ensures
        r == rdx * 0x1_0000_0000 + rax % 0x1_0000_0000,
{
    assert((rdx << 32u64) | (rax & 0xffff_ffffu64) == rdx * 0x1_0000_0000 + rax % 0x1_0000_0000) by (bit_vector)
        requires
            rdx <= 0xffff_ffffu64,
    ;
    (rdx << 32) | (rax & 0xffff_ffff)
}

/// The two halves written to the deadline register to fire at `deadline`:
/// `edx` the high half, `eax` the low.
pub fn set_deadline(deadline: u64) -> (r: (u32, u32))
    ensures
        r.0 == deadline / 0x1_0000_0000,
        r.1 == deadline % 0x1_0000_0000,
{
    ((deadline / 0x1_0000_0000) as u32, (deadline % 0x1_0000_0000) as u32)
}

/// The halves that cancel the deadline and disarm the timer.
pub fn clear_deadline() -> (r: (u32, u32))
    ensures
        r == (0u32, 0u32),
{
    (0, 0)
}

} // verus!
