//! System description tables: the common header, the entries of the root
//! table, and the table of signatures to physical addresses built from them.

use vstd::prelude::*;
use crate::bytes::{le_u32, le_u64, read_u32, read_u64};
use super::rsdt::ParseResult;

verus! {

/// Size of the header that starts every system description table.
pub const SDT_HEADER_SIZE: usize = 36;

/// The header that starts every system description table.
#[derive(Debug, Clone, Copy)]
pub struct SDTHeader {
    pub signature: [u8; 4],
    pub length: u32,
    pub revision: u8,
    pub checksum: u8,
    pub oem_id: [u8; 6],
    pub oem_table_id: [u8; 8],
    pub oem_revision: u32,
    pub creator_id: u32,
    pub creator_revision: u32,
}

/// A table signature as the integer of its four bytes, little-endian.
pub open spec fn signature_key(sig: [u8; 4]) -> u32 {
    (sig[0] + sig[1] * 0x100 + sig[2] * 0x1_0000 + sig[3] * 0x100_0000) as u32
}

/// Turns a signature into its map key.
pub fn signature_to_key(sig: &[u8; 4]) -> (k: u32)
    ensures
        k == signature_key(*sig),
{
    sig[0] as u32 + (sig[1] as u32) * 0x100 + (sig[2] as u32) * 0x1_0000 + (sig[3] as u32)
        * 0x100_0000
}

/// Decodes the header at the start of `b`.
pub fn read_sdt_header(b: &[u8]) -> (h: SDTHeader)
    requires
        b@.len() >= SDT_HEADER_SIZE,
    ensures
        forall|i: int| 0 <= i < 4 ==> h.signature[i] == b@[i],
        h.length == le_u32(b@, 4),
        h.revision == b@[8],
        h.checksum == b@[9],
        forall|i: int| 0 <= i < 6 ==> h.oem_id[i] == b@[10 + i],
        forall|i: int| 0 <= i < 8 ==> h.oem_table_id[i] == b@[16 + i],
        h.oem_revision == le_u32(b@, 24),
        h.creator_id == le_u32(b@, 28),
        h.creator_revision == le_u32(b@, 32),
{
    SDTHeader {
        signature: [b[0], b[1], b[2], b[3]],
        length: read_u32(b, 4),
        revision: b[8],
        checksum: b[9],
        oem_id: [b[10], b[11], b[12], b[13], b[14], b[15]],
        oem_table_id: [b[16], b[17], b[18], b[19], b[20], b[21], b[22], b[23]],
        oem_revision: read_u32(b, 24),
        creator_id: read_u32(b, 28),
        creator_revision: read_u32(b, 32),
    }
}

/// Width in bytes of one entry of the root table.
pub open spec fn entry_width(result: ParseResult) -> nat {
    match result {
        ParseResult::RSDT(_) => 4,
        ParseResult::XSDT(_) => 8,
    }
}

/// Physical address of the root table.
pub open spec fn root_address(result: ParseResult) -> u64 {
    match result {
        ParseResult::RSDT(p) => p as u64,
        ParseResult::XSDT(p) => p,
    }
}

/// Whether the root table is the ACPI 1.0 one.
pub open spec fn is_legacy(result: ParseResult) -> bool {
    result is RSDT
}

/// Number of entries of the root table whose header length is `len`.
pub open spec fn entry_count(len: nat, width: nat) -> nat {
    ((len - SDT_HEADER_SIZE) as nat) / width
}

/// Entry `i` of the root table `s`.
pub open spec fn root_entry(s: Seq<u8>, width: nat, i: int) -> u64 {
    if width == 4 {
        le_u32(s, SDT_HEADER_SIZE + 4 * i) as u64
    } else {
        le_u64(s, SDT_HEADER_SIZE + 8 * i) as u64
    }
}

/// The root table holds its header signature "RSDT", a length no less than
/// the header's, and all the bytes that length covers.
pub open spec fn root_table_readable(s: Seq<u8>) -> bool {
    &&& s.len() >= SDT_HEADER_SIZE
    &&& s[0] == 0x52 && s[1] == 0x53 && s[2] == 0x44 && s[3] == 0x54
    &&& le_u32(s, 4) >= SDT_HEADER_SIZE
    &&& le_u32(s, 4) <= s.len()
}

/// The physical addresses listed in the root table `root`, whose entries
/// are 32 bits wide for an RSDT result and 64 bits wide for an XSDT result.
pub fn rsdt_entry_addresses(result: ParseResult, root: &[u8]) -> (r: Vec<u64>)
    requires
        root_table_readable(root@),
    ensures
        r@.len() == entry_count(le_u32(root@, 4) as nat, entry_width(result)),
        forall|i: int| 0 <= i < r@.len() ==> r@[i] == root_entry(root@, entry_width(result), i),
{
    let header = read_sdt_header(root);
    let body_ptr_size: usize = match result {
        ParseResult::RSDT(_) => 4,
        ParseResult::XSDT(_) => 8,
    };
    let len = root.len();
    let count = (header.length as usize - SDT_HEADER_SIZE) / body_ptr_size;
    let mut entries: Vec<u64> = Vec::new();
    let mut index: usize = 0;
    while index < count
        invariant
            index <= count,
            count == entry_count(le_u32(root@, 4) as nat, entry_width(result)),
            body_ptr_size == entry_width(result),
            header.length == le_u32(root@, 4),
            root_table_readable(root@),
            len == root@.len(),
            entries@.len() == index,
            forall|i: int|
                0 <= i < index ==> entries@[i] == root_entry(root@, entry_width(result), i),
        decreases count - index,
    {
        proof {
            let n = (header.length - SDT_HEADER_SIZE) as int;
            assert(body_ptr_size * (index + 1) <= n) by (nonlinear_arith)
                requires
                    index < count,
                    count == n / (body_ptr_size as int),
                    body_ptr_size > 0,
                    n >= 0,
            ;
        }
        let off = SDT_HEADER_SIZE + body_ptr_size * index;
        let p = if body_ptr_size == 4 {
            read_u32(root, off) as u64
        } else {
            read_u64(root, off)
        };
        entries.push(p);
        index = index + 1;
    }
    entries
}

/// A map from table signatures (as integers) to physical addresses.
#[verifier::external_body]
pub struct SdtMap {
    map: hashbrown::HashMap<u32, u64>,
}

/// The map with no entries.
pub open spec fn no_entries() -> Map<u32, u64> {
    Map::empty()
}

/// What an `SdtMap` holds.
pub uninterp spec fn sdt_map_contents(m: SdtMap) -> Map<u32, u64>;

impl SdtMap {
    /// What the map holds.
    pub open spec fn contents(&self) -> Map<u32, u64> {
        sdt_map_contents(*self)
    }

    /// `hashbrown::HashMap::get`: the value of `k`, if any.
    #[verifier::external_body]
    fn get(&self, k: u32) -> (r: Option<u64>)
        ensures
            r == (if sdt_map_contents(*self).contains_key(k) {
                Some(sdt_map_contents(*self)[k])
            } else {
                None
            }),
    {
        self.map.get(&k).copied()
    }
}

/// `hashbrown::HashMap::new`: an empty map.
#[verifier::external_body]
fn sdt_map_new() -> (r: SdtMap)
    ensures
        r.contents() == no_entries(),
{
    SdtMap { map: hashbrown::HashMap::new() }
}

/// `hashbrown::HashMap::insert`: maps `k` to `v`, replacing an earlier value.
#[verifier::external_body]
fn sdt_map_insert(m: &mut SdtMap, k: u32, v: u64)
    ensures
        final(m).contents() == old(m).contents().insert(k, v),
{
    m.map.insert(k, v);
}

/// The root table's contents as the kernel keeps them.
pub struct RsdtTables {
    legacy: bool,
    entries: SdtMap,
}

/// The map built by inserting `(sigs[i], addrs[i])` for `i < n`, in order.
pub open spec fn entries_map(sigs: Seq<[u8; 4]>, addrs: Seq<u64>, n: nat) -> Map<u32, u64>
    decreases n,
{
    if n == 0 {
        Map::empty()
    } else {
        entries_map(sigs, addrs, (n - 1) as nat).insert(
            signature_key(sigs[n - 1]),
            addrs[n - 1],
        )
    }
}

impl RsdtTables {
    pub closed spec fn spec_legacy(&self) -> bool {
        self.legacy
    }

    pub closed spec fn spec_entries(&self) -> Map<u32, u64> {
        sdt_map_contents(self.entries)
    }

    /// Whether the tables came from the ACPI 1.0 root table.
    pub fn is_legacy_acpi(&self) -> (r: bool)
        ensures
            r == self.spec_legacy(),
    {
        self.legacy
    }

    /// Physical address of the table with signature `key`.
    pub fn rsdt_get(&self, key: &[u8; 4]) -> (r: Option<u64>)
        ensures
            r == (if self.spec_entries().contains_key(signature_key(*key)) {
                Some(self.spec_entries()[signature_key(*key)])
            } else {
                None
            }),
    {
        let k = signature_to_key(key);
        self.entries.get(k)
    }
}

/// Builds the table of signatures: entry `i` of the root table, at
/// `addresses[i]`, carries the signature `signatures[i]`; a later entry
/// with the same signature replaces an earlier one.
pub fn init_rsdt(result: ParseResult, signatures: &[[u8; 4]], addresses: &[u64]) -> (t:
    RsdtTables)
    requires
        signatures@.len() == addresses@.len(),
    ensures
        t.spec_legacy() == is_legacy(result),
        t.spec_entries() == entries_map(signatures@, addresses@, signatures@.len()),
{
    let legacy = match result {
        ParseResult::RSDT(_) => true,
        ParseResult::XSDT(_) => false,
    };
    let mut entries = sdt_map_new();
    let mut index: usize = 0;
    while index < signatures.len()
        invariant
            index <= signatures@.len(),
            signatures@.len() == addresses@.len(),
            sdt_map_contents(entries) == entries_map(signatures@, addresses@, index as nat),
        decreases signatures@.len() - index,
    {
        let k = signature_to_key(&signatures[index]);
        sdt_map_insert(&mut entries, k, addresses[index]);
        index = index + 1;
    }
    RsdtTables { legacy, entries }
}

/// Offset of the 32-bit DSDT address in the FADT.
pub const FADT_DSDT_OFFSET: usize = 40;
/// Offset of the 64-bit DSDT address in the FADT.
pub const FADT_X_DSDT_OFFSET: usize = 140;

/// Physical address of the DSDT named by the FADT `fadt`: its 32-bit field
/// for ACPI 1.0 tables, its 64-bit field otherwise.
pub fn dsdt_address(fadt: &[u8], legacy: bool) -> (r: u64)
    requires
        fadt@.len() >= FADT_X_DSDT_OFFSET + 8,
    ensures
        r == (if legacy {
            le_u32(fadt@, FADT_DSDT_OFFSET as int)
        } else {
            le_u64(fadt@, FADT_X_DSDT_OFFSET as int)
        }),
{
    if legacy {
        read_u32(fadt, FADT_DSDT_OFFSET) as u64
    } else {
        read_u64(fadt, FADT_X_DSDT_OFFSET)
    }
}

} // verus!
