//! Locating and validating the Root System Description Pointer.

use vstd::prelude::*;
use crate::bytes::{le_u32, le_u64, read_u32, read_u64};

verus! {

/// The eight bytes `"RSD PTR "` that start an RSDP.
pub open spec fn rsdp_signature() -> Seq<u8> {
    seq![0x52u8, 0x53u8, 0x44u8, 0x20u8, 0x50u8, 0x54u8, 0x52u8, 0x20u8]
}

/// Size of the ACPI 1.0 descriptor.
pub const RSDP_V1_SIZE: usize = 20;
/// Number of bytes covered by the second checksum.
pub const RSDP_V2_CHECKED_SIZE: usize = 64;
/// Alignment of the positions scanned for a descriptor.
pub const RSDP_SCAN_STEP: usize = 0x10;

/// The ACPI 1.0 root system description pointer.
#[derive(Clone, Copy, Debug)]
pub struct RSDPDescriptor {
    pub signature: [u8; 8],
    pub checksum: u8,
    pub oem_id: [u8; 6],
    pub revision: u8,
    pub rsdt_address: u32,
}

impl RSDPDescriptor {
    /// Revision:  0 = "ACPI 1.0", 2 = "ACPI 2.0+"
    pub fn supports_acpi2(&self) -> (r: bool)
        ensures
            r == (self.revision == 2),
    {
        self.revision == 2
    }
}

/// The ACPI 2.0 extension of the descriptor.
#[derive(Clone, Copy, Debug)]
pub struct RSDPDescriptor20 {
    pub first_part: RSDPDescriptor,
    pub length: u32,
    pub xsdt_address: u64,
    pub extendedchecksum: u8,
    pub reserved: [u8; 3],
}

#[derive(Debug, Clone, Copy, PartialEq, Eq, Structural)]
pub enum RSDPParseError {
    NotFound,
    UnsupportedVersion,
    IncorrectChecksum,
}

/// Why no extended root table could be located.
#[derive(Debug, Clone, Copy, PartialEq, Eq, Structural)]
pub enum XSDPParseError {
    RSDPParseError(RSDPParseError),
    IncorrectChecksum,
}

/// Root table reference: a 32-bit RSDT or a 64-bit XSDT address.
#[derive(Debug, Clone, Copy)]
pub enum ParseResult {
    RSDT(u32),
    XSDT(u64),
}

/// Sum of the first `n` bytes of `s`.
pub open spec fn byte_sum(s: Seq<u8>, n: nat) -> nat
    decreases n,
{
    if n == 0 {
        0
    } else {
        byte_sum(s, (n - 1) as nat) + s[n - 1] as nat
    }
}

proof fn lemma_byte_sum_bound(s: Seq<u8>, n: nat)
    ensures
        byte_sum(s, n) <= 255 * n,
    decreases n,
{
    if n > 0 {
        lemma_byte_sum_bound(s, (n - 1) as nat);
    }
}

/// Whether the first `n` bytes sum to zero modulo 256.
pub open spec fn checksum_ok(s: Seq<u8>, n: nat) -> bool {
    byte_sum(s, n) % 256 == 0
}

/// The outcome of validating the descriptor whose bytes start `s`.
pub open spec fn spec_parse_rsdp(s: Seq<u8>) -> Result<ParseResult, RSDPParseError> {
    let revision = s[15];
    if !(revision == 0 || revision == 2) {
        Err(RSDPParseError::UnsupportedVersion)
    } else if !checksum_ok(s, RSDP_V1_SIZE as nat) {
        Err(RSDPParseError::IncorrectChecksum)
    } else if revision == 2 {
        if !checksum_ok(s, RSDP_V2_CHECKED_SIZE as nat) {
            Err(RSDPParseError::IncorrectChecksum)
        } else {
            Ok(ParseResult::XSDT(le_u64(s, 24) as u64))
        }
    } else {
        Ok(ParseResult::RSDT(le_u32(s, 16) as u32))
    }
}

/// Bytes a descriptor needs to be readable: its own 20, and 64 when it
/// announces ACPI 2.0.
pub open spec fn rsdp_readable(s: Seq<u8>) -> bool {
    &&& s.len() >= RSDP_V1_SIZE
    &&& s[15] == 2 ==> s.len() >= RSDP_V2_CHECKED_SIZE
}

fn sum_bytes(b: &[u8], n: usize) -> (r: u32)
    requires
        n <= b@.len(),
        n <= 64,
    ensures
        r == byte_sum(b@, n as nat),
{
    let mut sum: u32 = 0;
    let mut i: usize = 0;
    while i < n
        invariant
            i <= n,
            n <= b@.len(),
            n <= 64,
            sum == byte_sum(b@, i as nat),
        decreases n - i,
    {
        proof {
            lemma_byte_sum_bound(b@, i as nat);
        }
        sum = sum + b[i] as u32;
        i = i + 1;
    }
    sum
}

/// Decodes the 1.0 part of a descriptor.
pub fn read_descriptor(b: &[u8]) -> (d: RSDPDescriptor)
    requires
        b@.len() >= RSDP_V1_SIZE,
    ensures
        d.revision == b@[15],
        d.checksum == b@[8],
        d.rsdt_address == le_u32(b@, 16),
        forall|i: int| 0 <= i < 8 ==> d.signature[i] == b@[i],
        forall|i: int| 0 <= i < 6 ==> d.oem_id[i] == b@[9 + i],
{
    RSDPDescriptor {
        signature: [b[0], b[1], b[2], b[3], b[4], b[5], b[6], b[7]],
        checksum: b[8],
        oem_id: [b[9], b[10], b[11], b[12], b[13], b[14]],
        revision: b[15],
        rsdt_address: read_u32(b, 16),
    }
}

/// Validates the descriptor whose bytes start `b`: its revision, its
/// checksum, and for ACPI 2.0 the extended checksum, then gives the root
/// table's address.
pub fn parse_rsdp(b: &[u8]) -> (r: Result<ParseResult, RSDPParseError>)
    requires
        rsdp_readable(b@),
    ensures
        r == spec_parse_rsdp(b@),
{
    let basic = read_descriptor(b);
    if !(basic.revision == 0 || basic.revision == 2) {
        return Err(RSDPParseError::UnsupportedVersion);
    }
    let csum_1 = sum_bytes(b, RSDP_V1_SIZE);
    if (csum_1 & 0xFF) != 0 {
        assert((csum_1 & 0xFF) == csum_1 % 256) by (bit_vector);
        return Err(RSDPParseError::IncorrectChecksum);
    }
    assert((csum_1 & 0xFF) == csum_1 % 256) by (bit_vector);
    if basic.supports_acpi2() {
        let csum_2 = sum_bytes(b, RSDP_V2_CHECKED_SIZE);
        assert((csum_2 & 0xFF) == csum_2 % 256) by (bit_vector);
        if (csum_2 & 0xFF) != 0 {
            return Err(RSDPParseError::IncorrectChecksum);
        }
        Ok(ParseResult::XSDT(read_u64(b, 24)))
    } else {
        Ok(ParseResult::RSDT(basic.rsdt_address))
    }
}

/// Whether the eight bytes at `off` are the descriptor signature.
pub open spec fn signature_at(s: Seq<u8>, off: int) -> bool {
    s.subrange(off, off + 8) == rsdp_signature()
}

fn has_signature_at(mem: &[u8], off: usize) -> (r: bool)
    requires
        off + 8 <= mem@.len(),
    ensures
        r == signature_at(mem@, off as int),
{
    let r = mem[off] == 0x52 && mem[off + 1] == 0x53 && mem[off + 2] == 0x44 && mem[off + 3]
        == 0x20 && mem[off + 4] == 0x50 && mem[off + 5] == 0x54 && mem[off + 6] == 0x52 && mem[off
        + 7] == 0x20;
    assert(r == (mem@.subrange(off as int, off + 8) =~= rsdp_signature()));
    r
}

/// Scans the first `scan_len` bytes of `mem` at 16-byte steps for the
/// descriptor signature.
pub fn find_rsdp(mem: &[u8], scan_len: usize) -> (r: Option<usize>)
    requires
        scan_len + 8 <= mem@.len(),
    ensures
        match r {
            Some(p) => {
                &&& p < scan_len
                &&& p % 16 == 0
                &&& signature_at(mem@, p as int)
                &&& forall|q: nat| q < p && q % 16 == 0 ==> !signature_at(mem@, q as int)
            },
            None => forall|q: nat|
                q < scan_len && q % 16 == 0 ==> !signature_at(mem@, q as int),
        },
{
    let mut p: usize = 0;
    loop
        invariant
            p % 16 == 0,
            p <= scan_len,
            scan_len + 8 <= mem@.len(),
            forall|q: nat| q < p && q % 16 == 0 ==> !signature_at(mem@, q as int),
        decreases scan_len - p,
    {
        if p >= scan_len {
            return None;
        }
        if has_signature_at(mem, p) {
            return Some(p);
        }
        if scan_len - p <= RSDP_SCAN_STEP {
            proof {
                assert forall|q: nat| q < scan_len && q % 16 == 0 implies !signature_at(
                    mem@,
                    q as int,
                ) by {
                    if q > p {
                        assert(q >= p + 16) by (nonlinear_arith)
                            requires
                                q > p,
                                q % 16 == 0,
                                p % 16 == 0,
                        ;
                    }
                }
            }
            return None;
        }
        proof {
            assert forall|q: nat| q < p + 16 && q % 16 == 0 implies !signature_at(
                mem@,
                q as int,
            ) by {
                if q > p {
                    assert(q >= p + 16) by (nonlinear_arith)
                        requires
                            q > p,
                            q % 16 == 0,
                            p % 16 == 0,
                    ;
                }
            }
        }
        p = p + RSDP_SCAN_STEP;
    }
}

/// Looks for the descriptor first in the extended BIOS data area, then in
/// the BIOS area, and validates the first one found.
///
/// Each area is given with the bytes that follow its scanned part, so that
/// a descriptor found near the end can be read whole.
pub fn get_rsdp_and_parse(
    ebda: &[u8],
    ebda_scan_len: usize,
    bios: &[u8],
    bios_scan_len: usize,
) -> (r: Result<ParseResult, RSDPParseError>)
    requires
        ebda_scan_len + RSDP_V2_CHECKED_SIZE <= ebda@.len(),
        bios_scan_len + RSDP_V2_CHECKED_SIZE <= bios@.len(),
    ensures
        match find_rsdp_spec(ebda@, ebda_scan_len as nat) {
            Some(p) => r == spec_parse_rsdp(ebda@.skip(p as int)),
            None => match find_rsdp_spec(bios@, bios_scan_len as nat) {
                Some(p) => r == spec_parse_rsdp(bios@.skip(p as int)),
                None => r == Err::<ParseResult, RSDPParseError>(RSDPParseError::NotFound),
            },
        },
{
    match find_rsdp(ebda, ebda_scan_len) {
        Some(p) => {
            proof {
                lemma_find_rsdp_spec(ebda@, ebda_scan_len as nat, p as nat);
            }
            let tail = slice_from(ebda, p);
            parse_rsdp(tail)
        },
        None => {
            proof {
                lemma_find_rsdp_spec_none(ebda@, ebda_scan_len as nat);
            }
            match find_rsdp(bios, bios_scan_len) {
                Some(p) => {
                    proof {
                        lemma_find_rsdp_spec(bios@, bios_scan_len as nat, p as nat);
                    }
                    let tail = slice_from(bios, p);
                    parse_rsdp(tail)
                },
                None => {
                    proof {
                        lemma_find_rsdp_spec_none(bios@, bios_scan_len as nat);
                    }
                    Err(RSDPParseError::NotFound)
                },
            }
        },
    }
}

/// Where the extended BIOS data area is scanned, and how far.
pub const EBDA_START: u64 = 0x9fc00;
pub const EBDA_SCAN_LEN: usize = 0x640;
/// Where the BIOS read-only area is scanned, and how far.
pub const BIOS_AREA_START: u64 = 0xe0000;
pub const BIOS_SCAN_LEN: usize = 0x1ffff;

/// The physical address of the first descriptor signature found: in the
/// extended BIOS data area, whose bytes from `EBDA_START` on are `ebda`,
/// else in the BIOS area, whose bytes from `BIOS_AREA_START` on are `bios`.
pub fn get_rsdp_addr(ebda: &[u8], bios: &[u8]) -> (r: Option<u64>)
    requires
        EBDA_SCAN_LEN + 8 <= ebda@.len(),
        BIOS_SCAN_LEN + 8 <= bios@.len(),
    ensures
        match find_rsdp_spec(ebda@, EBDA_SCAN_LEN as nat) {
            Some(p) => r == Some((EBDA_START + p) as u64),
            None => match find_rsdp_spec(bios@, BIOS_SCAN_LEN as nat) {
                Some(p) => r == Some((BIOS_AREA_START + p) as u64),
                None => r is None,
            },
        },
{
    match find_rsdp(ebda, EBDA_SCAN_LEN) {
        Some(p) => {
            proof {
                lemma_find_rsdp_spec(ebda@, EBDA_SCAN_LEN as nat, p as nat);
            }
            Some(EBDA_START + p as u64)
        },
        None => {
            proof {
                lemma_find_rsdp_spec_none(ebda@, EBDA_SCAN_LEN as nat);
            }
            match find_rsdp(bios, BIOS_SCAN_LEN) {
                Some(p) => {
                    proof {
                        lemma_find_rsdp_spec(bios@, BIOS_SCAN_LEN as nat, p as nat);
                    }
                    Some(BIOS_AREA_START + p as u64)
                },
                None => {
                    proof {
                        lemma_find_rsdp_spec_none(bios@, BIOS_SCAN_LEN as nat);
                    }
                    None
                },
            }
        },
    }
}

/// Whether a valid root system description pointer is found in the two
/// areas, and why not when it is not.
pub fn get_xsdp(
    ebda: &[u8],
    ebda_scan_len: usize,
    bios: &[u8],
    bios_scan_len: usize,
) -> (r: Result<bool, XSDPParseError>)
    requires
        ebda_scan_len + RSDP_V2_CHECKED_SIZE <= ebda@.len(),
        bios_scan_len + RSDP_V2_CHECKED_SIZE <= bios@.len(),
    ensures
        ({
            let found = match find_rsdp_spec(ebda@, ebda_scan_len as nat) {
                Some(p) => spec_parse_rsdp(ebda@.skip(p as int)),
                None => match find_rsdp_spec(bios@, bios_scan_len as nat) {
                    Some(p) => spec_parse_rsdp(bios@.skip(p as int)),
                    None => Err(RSDPParseError::NotFound),
                },
            };
            match found {
                Ok(_) => r == Ok::<bool, XSDPParseError>(true),
                Err(e) => r == Err::<bool, XSDPParseError>(XSDPParseError::RSDPParseError(e)),
            }
        }),
{
    match get_rsdp_and_parse(ebda, ebda_scan_len, bios, bios_scan_len) {
        Ok(_) => Ok(true),
        Err(e) => Err(XSDPParseError::RSDPParseError(e)),
    }
}

/// The position that the scan finds: the least 16-aligned position below
/// `scan_len` that holds the signature.
pub open spec fn find_rsdp_spec(s: Seq<u8>, scan_len: nat) -> Option<nat> {
    if exists|p: nat| is_first_signature(s, scan_len, p) {
        Some(choose|p: nat| is_first_signature(s, scan_len, p))
    } else {
        None
    }
}

/// `p` is a 16-aligned signature position below `scan_len` with none before it.
pub open spec fn is_first_signature(s: Seq<u8>, scan_len: nat, p: nat) -> bool {
    &&& p < scan_len
    &&& p % 16 == 0
    &&& signature_at(s, p as int)
    &&& forall|q: nat| q < p && q % 16 == 0 ==> !signature_at(s, q as int)
}

proof fn lemma_find_rsdp_spec(s: Seq<u8>, scan_len: nat, p: nat)
    requires
        is_first_signature(s, scan_len, p),
    ensures
        find_rsdp_spec(s, scan_len) == Some(p),
{
    let c = choose|p: nat| is_first_signature(s, scan_len, p);
    assert(is_first_signature(s, scan_len, c));
    if c < p {
        assert(!signature_at(s, c as int));
    } else if p < c {
        assert(!signature_at(s, p as int));
    }
}

proof fn lemma_find_rsdp_spec_none(s: Seq<u8>, scan_len: nat)
    requires
        forall|q: nat| q < scan_len && q % 16 == 0 ==> !signature_at(s, q as int),
    ensures
        find_rsdp_spec(s, scan_len) is None,
{
}

fn slice_from(b: &[u8], p: usize) -> (r: &[u8])
    requires
        p <= b@.len(),
    ensures
        r@ == b@.skip(p as int),
{
    let len = b.len();
    &b[p..len]
}

} // verus!
