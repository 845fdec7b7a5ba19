//! Decoding of CPUID results: the processor brand string and the feature
//! bits the kernel depends on.

use vstd::prelude::*;

verus! {

/// Byte `k` (0..48) of three CPUID results laid out register by register,
/// each register little-endian.
pub open spec fn brand_byte(leaves: [[u32; 4]; 3], k: int) -> u8 {
    let v = leaves[k / 16][(k % 16) / 4];
    (((v as int) / pow256(k % 4)) % 256) as u8
}

/// 256 to the power `i`, for `i` below 4.
pub open spec fn pow256(i: int) -> int {
    if i == 0 {
        1
    } else if i == 1 {
        0x100
    } else if i == 2 {
        0x1_0000
    } else {
        0x100_0000
    }
}

/// The 48 bytes of the three results.
pub open spec fn brand_bytes(leaves: [[u32; 4]; 3]) -> Seq<u8> {
    Seq::new(48, |k: int| brand_byte(leaves, k))
}

/// `s` up to its first zero byte.
pub open spec fn until_zero(s: Seq<u8>) -> Seq<u8> {
    if exists|i: int| 0 <= i < s.len() && s[i] == 0 {
        s.take(choose|i: int| 0 <= i < s.len() && s[i] == 0 && forall|j: int| 0 <= j < i ==> s[j] != 0)
    } else {
        s
    }
}

/// Whether the character with code `b` is white space.
pub open spec fn is_white_space(b: u8) -> bool {
    (0x09 <= b <= 0x0d) || b == 0x20 || b == 0x85 || b == 0xa0
}

/// Number of white space bytes that start `s`.
pub open spec fn leading_ws(s: Seq<u8>) -> nat
    decreases s.len(),
{
    if s.len() > 0 && is_white_space(s[0]) {
        1 + leading_ws(s.skip(1))
    } else {
        0
    }
}

/// Number of white space bytes that end `s`.
pub open spec fn trailing_ws(s: Seq<u8>) -> nat
    decreases s.len(),
{
    if s.len() > 0 && is_white_space(s.last()) {
        1 + trailing_ws(s.drop_last())
    } else {
        0
    }
}

/// `s` without white space at either end.
pub open spec fn trimmed(s: Seq<u8>) -> Seq<u8> {
    let t = s.skip(leading_ws(s) as int);
    t.take(t.len() - trailing_ws(t))
}

proof fn lemma_leading_ws_bound(s: Seq<u8>)
    ensures
        leading_ws(s) <= s.len(),
    decreases s.len(),
{
    if s.len() > 0 && is_white_space(s[0]) {
        lemma_leading_ws_bound(s.skip(1));
    }
}

proof fn lemma_trailing_ws_bound(s: Seq<u8>)
    ensures
        trailing_ws(s) <= s.len(),
    decreases s.len(),
{
    if s.len() > 0 && is_white_space(s.last()) {
        lemma_trailing_ws_bound(s.drop_last());
    }
}

fn white_space(b: u8) -> (r: bool)
    ensures
        r == is_white_space(b),
{
    (0x09 <= b && b <= 0x0d) || b == 0x20 || b == 0x85 || b == 0xa0
}

/// `s` without white space at either end.
pub fn trim(s: &[u8]) -> (r: Vec<u8>)
    ensures
        r@ == trimmed(s@),
{
    let mut start: usize = 0;
    proof {
        assert(s@.skip(0) =~= s@);
    }
    while start < s.len() && white_space(s[start])
        invariant
            start <= s@.len(),
            leading_ws(s@) == start + leading_ws(s@.skip(start as int)),
        decreases s@.len() - start,
    {
        proof {
            assert(s@.skip(start as int).skip(1) =~= s@.skip(start + 1));
        }
        start = start + 1;
    }
    proof {
        assert(leading_ws(s@.skip(start as int)) == 0);
    }
    let mut end: usize = s.len();
    let ghost t = s@.skip(start as int);
    proof {
        assert(t.take(end - start) =~= t);
    }
    while end > start && white_space(s[end - 1])
        invariant
            start <= end <= s@.len(),
            t == s@.skip(start as int),
            trailing_ws(t) == (s@.len() - end) + trailing_ws(t.take(end - start)),
        decreases end - start,
    {
        proof {
            assert(t.take(end - start).drop_last() =~= t.take(end - start - 1));
        }
        end = end - 1;
    }
    proof {
        assert(t.take(end - start) =~= t.take(end - start));
        assert(trailing_ws(t.take(end - start)) == 0);
        assert(t.take(t.len() - trailing_ws(t)) =~= s@.subrange(start as int, end as int));
    }
    let mut r: Vec<u8> = Vec::new();
    let mut i = start;
    while i < end
        invariant
            start <= i <= end <= s@.len(),
            r@ == s@.subrange(start as int, i as int),
        decreases end - i,
    {
        r.push(s[i]);
        i = i + 1;
        proof {
            assert(r@ =~= s@.subrange(start as int, i as int));
        }
    }
    r
}

/// The processor brand from the results of the three brand queries: their
/// bytes, register by register, up to the first zero, without surrounding
/// white space.
pub fn cpu_brand(leaves: [[u32; 4]; 3]) -> (r: Vec<u8>)
    ensures
        r@ == trimmed(until_zero(brand_bytes(leaves))),
{
    let mut result: Vec<u8> = Vec::new();
    let ghost all = brand_bytes(leaves);
    let mut k: usize = 0;
    let mut stopped = false;
    while k < 48 && !stopped
        invariant
            k <= 48,
            all == brand_bytes(leaves),
            !stopped ==> result@ == all.take(k as int) && forall|j: int| 0 <= j < k ==> all[j] != 0,
            stopped ==> result@ == until_zero(all),
        decreases 48 - k + (if stopped { 0int } else { 1int }),
    {
        let v = leaves[k / 16][(k % 16) / 4];
        let i = k % 4;
        let p: u32 = if i == 0 {
            1
        } else if i == 1 {
            0x100
        } else if i == 2 {
            0x1_0000
        } else {
            0x100_0000
        };
        let byte = ((v / p) % 256) as u8;
        assert(byte == all[k as int]);
        if byte == 0 {
            proof {
                let z = choose|i: int| 0 <= i < all.len() && all[i] == 0 && forall|j: int| 0 <= j < i ==> all[j] != 0;
                assert(0 <= k < all.len() && all[k as int] == 0);
                if z < k {
                } else if z > k {
                }
                assert(z == k);
            }
            stopped = true;
        } else {
            result.push(byte);
            k = k + 1;
            proof {
                assert(result@ =~= all.take(k as int));
            }
        }
    }
    proof {
        if !stopped {
            assert(all.take(48) =~= all);
            assert(!exists|i: int| 0 <= i < all.len() && all[i] == 0);
        }
    }
    trim(result.as_slice())
}

/// Bit 24 of ECX from leaf 1: TSC deadline mode.
pub fn tsc_supports_deadline_mode(ecx: u32) -> (r: bool)
    ensures
        r == (ecx & 0x0100_0000 == 0x0100_0000),
{
    ecx & 0x0100_0000 == 0x0100_0000
}

/// (RDSEED, RDRAND) support from EBX of leaf 7 (bit 18) and ECX of leaf 1
/// (bit 30).
pub fn supports_rdrand(ebx_leaf7: u32, ecx_leaf1: u32) -> (r: (bool, bool))
    ensures
        r.0 == (ebx_leaf7 & 0x4_0000 != 0),
        r.1 == (ecx_leaf1 & 0x4000_0000 != 0),
{
    let rdseed = ebx_leaf7 & 0x4_0000 != 0;
    let rdrand = ecx_leaf1 & 0x4000_0000 != 0;
    (rdseed, rdrand)
}

/// Why the processor cannot run the kernel.
#[derive(Debug, Clone, Copy, PartialEq, Eq)]
pub enum FeatureError {
    /// The highest standard leaf is below 3.
    StandardLevelTooLow,
    /// The highest extended leaf is below 0x8000_0007.
    ExtendedLevelTooLow,
    MissingTsc,
    MissingSse,
    MissingApic,
}

pub const EDX_TSC: u32 = 0x10;
pub const EDX_APIC: u32 = 0x200;
pub const EDX_SSE: u32 = 0x200_0000;

/// The first failed requirement, in the order the kernel checks them.
pub open spec fn feature_failure(level_std: u32, level_ext: u32, edx_leaf1: u32) -> Option<
    FeatureError,
> {
    if level_std < 3 {
        Some(FeatureError::StandardLevelTooLow)
    } else if level_ext < 0x8000_0007 {
        Some(FeatureError::ExtendedLevelTooLow)
    } else if edx_leaf1 & EDX_TSC != EDX_TSC {
        Some(FeatureError::MissingTsc)
    } else if edx_leaf1 & EDX_SSE != EDX_SSE {
        Some(FeatureError::MissingSse)
    } else if edx_leaf1 & EDX_APIC != EDX_APIC {
        Some(FeatureError::MissingApic)
    } else {
        None
    }
}

/// Checks the processor's levels and features; on success tells whether
/// the TSC is invariant (bit 8 of EDX of leaf 0x8000_0007).
pub fn run_feature_checks(level_std: u32, level_ext: u32, edx_leaf1: u32, edx_ext7: u32) -> (r:
    Result<bool, FeatureError>)
    ensures
        match feature_failure(level_std, level_ext, edx_leaf1) {
            Some(e) => r == Err::<bool, FeatureError>(e),
            None => r == Ok::<bool, FeatureError>(edx_ext7 & 0x100 != 0),
        },
{
    if level_std < 3 {
        Err(FeatureError::StandardLevelTooLow)
    } else if level_ext < 0x8000_0007 {
        Err(FeatureError::ExtendedLevelTooLow)
    } else if edx_leaf1 & EDX_TSC != EDX_TSC {
        Err(FeatureError::MissingTsc)
    } else if edx_leaf1 & EDX_SSE != EDX_SSE {
        Err(FeatureError::MissingSse)
    } else if edx_leaf1 & EDX_APIC != EDX_APIC {
        Err(FeatureError::MissingApic)
    } else {
        Ok(edx_ext7 & 0x100 != 0)
    }
}

/// What the processor check at boot finds on a processor that can run
/// the kernel: whether its TSC is invariant (the kernel warns where it is
/// not) and whether the scheduler can use TSC deadline mode.
pub struct CpuReport {
    pub invariant_tsc: bool,
    pub deadline_mode: bool,
}

/// Runs the boot-time processor checks on the CPUID results. The kernel
/// cannot run on a processor that fails `run_feature_checks`.
pub fn init(level_std: u32, level_ext: u32, ecx_leaf1: u32, edx_leaf1: u32, edx_ext7: u32) -> (r:
    CpuReport)
    requires
        feature_failure(level_std, level_ext, edx_leaf1) is None,
    ensures
        r.invariant_tsc == (edx_ext7 & 0x100 != 0),
        r.deadline_mode == (ecx_leaf1 & 0x0100_0000 == 0x0100_0000),
{
    let invariant_tsc = match run_feature_checks(level_std, level_ext, edx_leaf1, edx_ext7) {
        Ok(b) => b,
        Err(_) => unreached(),
    };
    let deadline_mode = tsc_supports_deadline_mode(ecx_leaf1);
    CpuReport { invariant_tsc, deadline_mode }
}

} // verus!
