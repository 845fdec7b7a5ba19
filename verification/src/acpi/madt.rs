//! The Multiple APIC Description Table: processors, I/O APICs and interrupt
//! source overrides.

use vstd::prelude::*;
use crate::bytes::{le_u16, le_u32, le_u64, read_u16, read_u32, read_u64};

verus! {

/// Offset of the first entry in the table: header, local APIC address, flags.
pub const MADT_ENTRIES_OFFSET: usize = 44;

#[derive(Debug, Copy, Clone)]
pub struct ProcessorLocalAPIC {
    pub processor_id: u8,
    pub acpi_id: u8,
    pub flags: u32,
}

#[derive(Debug, Copy, Clone)]
pub struct IoAPIC {
    pub io_acpi_id: u8,
    pub reserved: u8,
    /// MMIO base address
    pub io_acpi_addr: u32,
    /// Global system interrupt (first IRQ handled by this)
    pub gsib: u32,
}

#[derive(Debug, Copy, Clone)]
pub struct InterruptSourceOverride {
    pub bus_source: u8,
    pub irq_source: u8,
    pub gsi: u32,
    pub flags: u16,
}

#[derive(Debug, Copy, Clone)]
pub struct NonMaskableInterrupts {
    /// 0xff for all processors
    pub processor_id: u8,
    pub flags: u16,
    pub lint: u8,
}

#[derive(Debug, Copy, Clone)]
pub struct LocalAPICAddressOverride {
    pub reserved: u16,
    pub local_apic_addr: u64,
}

/// What the kernel keeps of the MADT.
pub struct ACPIData {
    pub local_apic_addr: u64,
    pub cpus: Vec<ProcessorLocalAPIC>,
    pub io_apics: Vec<IoAPIC>,
    pub int_source_overrides: Vec<InterruptSourceOverride>,
}

/// Body size of an entry of type `t`, for the types the kernel knows.
pub open spec fn body_size(t: u8) -> Option<nat> {
    if t == 0 {
        Some(6)
    } else if t == 1 {
        Some(10)
    } else if t == 2 {
        Some(8)
    } else if t == 4 {
        Some(4)
    } else if t == 5 {
        Some(10)
    } else {
        None
    }
}

/// The entry at `off` has a known type, a size that matches it, and lies
/// within `s`.
pub open spec fn entry_ok(s: Seq<u8>, off: int) -> bool {
    &&& 0 <= off
    &&& off + 2 <= s.len()
    &&& body_size(s[off]) is Some
    &&& s[off + 1] == body_size(s[off])->0 + 2
    &&& off + s[off + 1] <= s.len()
}

/// The entries from `off` on are well formed and the last of them ends
/// exactly at `end`.
pub open spec fn entries_ok(s: Seq<u8>, off: int, end: int) -> bool
    decreases end - off,
{
    entry_ok(s, off) && {
        let next = off + s[off + 1];
        next == end || (next < end && entries_ok(s, next, end))
    }
}

pub open spec fn spec_cpu(s: Seq<u8>, b: int) -> ProcessorLocalAPIC {
    ProcessorLocalAPIC { processor_id: s[b], acpi_id: s[b + 1], flags: le_u32(s, b + 2) as u32 }
}

pub open spec fn spec_io_apic(s: Seq<u8>, b: int) -> IoAPIC {
    IoAPIC {
        io_acpi_id: s[b],
        reserved: s[b + 1],
        io_acpi_addr: le_u32(s, b + 2) as u32,
        gsib: le_u32(s, b + 6) as u32,
    }
}

pub open spec fn spec_override(s: Seq<u8>, b: int) -> InterruptSourceOverride {
    InterruptSourceOverride {
        bus_source: s[b],
        irq_source: s[b + 1],
        gsi: le_u32(s, b + 2) as u32,
        flags: le_u16(s, b + 6) as u16,
    }
}

/// The entries of one kind contributed by the entry at `off`.
pub open spec fn own_cpus(s: Seq<u8>, off: int) -> Seq<ProcessorLocalAPIC> {
    if s[off] == 0 {
        seq![spec_cpu(s, off + 2)]
    } else {
        Seq::empty()
    }
}

pub open spec fn own_io_apics(s: Seq<u8>, off: int) -> Seq<IoAPIC> {
    if s[off] == 1 {
        seq![spec_io_apic(s, off + 2)]
    } else {
        Seq::empty()
    }
}

pub open spec fn own_overrides(s: Seq<u8>, off: int) -> Seq<InterruptSourceOverride> {
    if s[off] == 2 {
        seq![spec_override(s, off + 2)]
    } else {
        Seq::empty()
    }
}

/// Processors listed from `off` to `end`, in table order.
pub open spec fn madt_cpus(s: Seq<u8>, off: int, end: int) -> Seq<ProcessorLocalAPIC>
    decreases end - off,
{
    if !entry_ok(s, off) {
        Seq::empty()
    } else {
        let next = off + s[off + 1];
        if next < end {
            own_cpus(s, off) + madt_cpus(s, next, end)
        } else {
            own_cpus(s, off)
        }
    }
}

/// I/O APICs listed from `off` to `end`, in table order.
pub open spec fn madt_io_apics(s: Seq<u8>, off: int, end: int) -> Seq<IoAPIC>
    decreases end - off,
{
    if !entry_ok(s, off) {
        Seq::empty()
    } else {
        let next = off + s[off + 1];
        if next < end {
            own_io_apics(s, off) + madt_io_apics(s, next, end)
        } else {
            own_io_apics(s, off)
        }
    }
}

/// Interrupt source overrides listed from `off` to `end`, in table order.
pub open spec fn madt_overrides(s: Seq<u8>, off: int, end: int) -> Seq<InterruptSourceOverride>
    decreases end - off,
{
    if !entry_ok(s, off) {
        Seq::empty()
    } else {
        let next = off + s[off + 1];
        if next < end {
            own_overrides(s, off) + madt_overrides(s, next, end)
        } else {
            own_overrides(s, off)
        }
    }
}

/// The table holds its header, a length above 8, and entries that run
/// from the end of the fixed part exactly to that length.
pub open spec fn madt_well_formed(s: Seq<u8>) -> bool {
    &&& s.len() >= MADT_ENTRIES_OFFSET
    &&& le_u32(s, 4) > 8
    &&& entries_ok(s, MADT_ENTRIES_OFFSET as int, le_u32(s, 4))
}

fn read_cpu(s: &[u8], b: usize) -> (e: ProcessorLocalAPIC)
    requires
        b + 6 <= s@.len(),
    ensures
        e == spec_cpu(s@, b as int),
{
    let _len = s.len();
    ProcessorLocalAPIC { processor_id: s[b], acpi_id: s[b + 1], flags: read_u32(s, b + 2) }
}

fn read_io_apic(s: &[u8], b: usize) -> (e: IoAPIC)
    requires
        b + 10 <= s@.len(),
    ensures
        e == spec_io_apic(s@, b as int),
{
    let _len = s.len();
    IoAPIC {
        io_acpi_id: s[b],
        reserved: s[b + 1],
        io_acpi_addr: read_u32(s, b + 2),
        gsib: read_u32(s, b + 6),
    }
}

fn read_override(s: &[u8], b: usize) -> (e: InterruptSourceOverride)
    requires
        b + 8 <= s@.len(),
    ensures
        e == spec_override(s@, b as int),
{
    let _len = s.len();
    InterruptSourceOverride {
        bus_source: s[b],
        irq_source: s[b + 1],
        gsi: read_u32(s, b + 2),
        flags: read_u16(s, b + 6),
    }
}

/// Decodes a non-maskable interrupt entry body at `b`.
pub fn read_nmi(s: &[u8], b: usize) -> (e: NonMaskableInterrupts)
    requires
        b + 4 <= s@.len(),
    ensures
        e.processor_id == s@[b as int],
        e.flags == le_u16(s@, b + 1),
        e.lint == s@[b + 3],
{
    let _len = s.len();
    NonMaskableInterrupts { processor_id: s[b], flags: read_u16(s, b + 1), lint: s[b + 3] }
}

/// Decodes a local APIC address override entry body at `b`.
pub fn read_address_override(s: &[u8], b: usize) -> (e: LocalAPICAddressOverride)
    requires
        b + 10 <= s@.len(),
    ensures
        e.reserved == le_u16(s@, b as int),
        e.local_apic_addr == le_u64(s@, b + 2),
{
    let _len = s.len();
    LocalAPICAddressOverride { reserved: read_u16(s, b), local_apic_addr: read_u64(s, b + 2) }
}

/// Body size of an entry of type `t`, for the types the kernel knows.
fn entry_body_size(t: u8) -> (r: Option<u8>)
    ensures
        match body_size(t) {
            Some(n) => r == Some(n as u8),
            None => r is None,
        },
{
    if t == 0 {
        Some(6)
    } else if t == 1 {
        Some(10)
    } else if t == 2 {
        Some(8)
    } else if t == 4 {
        Some(4)
    } else if t == 5 {
        Some(10)
    } else {
        None
    }
}

/// Whether the entry at `off` is well formed.
fn entry_is_ok(s: &[u8], off: usize) -> (r: bool)
    ensures
        r == entry_ok(s@, off as int),
{
    let len = s.len();
    if off > len || len - off < 2 {
        return false;
    }
    match entry_body_size(s[off]) {
        None => false,
        Some(n) => s[off + 1] as usize == n as usize + 2 && s[off + 1] as usize <= len - off,
    }
}

/// Whether the MADT whose bytes are `table` is well formed: the checks
/// the kernel makes on the table as it reads it.
pub fn madt_is_well_formed(table: &[u8]) -> (r: bool)
    ensures
        r == madt_well_formed(table@),
{
    let len = table.len();
    if len < MADT_ENTRIES_OFFSET {
        return false;
    }
    let end = read_u32(table, 4) as usize;
    if end <= 8 {
        return false;
    }
    let ghost s = table@;
    let mut off: usize = MADT_ENTRIES_OFFSET;
    loop
        invariant
            s == table@,
            len == s.len(),
            end == le_u32(s, 4),
            MADT_ENTRIES_OFFSET <= off,
            entries_ok(s, MADT_ENTRIES_OFFSET as int, end as int) == entries_ok(s, off as int, end as int),
        decreases end - off,
    {
        if !entry_is_ok(table, off) {
            return false;
        }
        let next = off + table[off + 1] as usize;
        if next == end {
            return true;
        }
        if next > end {
            return false;
        }
        off = next;
    }
}

/// Parses the MADT whose bytes are `table`: the local APIC address from
/// the fixed part, then the processors, I/O APICs and interrupt source
/// overrides among its entries, each list in table order.
pub fn parse_madt(table: &[u8]) -> (d: ACPIData)
    requires
        madt_well_formed(table@),
    ensures
        d.local_apic_addr == le_u32(table@, 36),
        d.cpus@ == madt_cpus(table@, MADT_ENTRIES_OFFSET as int, le_u32(table@, 4)),
        d.io_apics@ == madt_io_apics(table@, MADT_ENTRIES_OFFSET as int, le_u32(table@, 4)),
        d.int_source_overrides@ == madt_overrides(
            table@,
            MADT_ENTRIES_OFFSET as int,
            le_u32(table@, 4),
        ),
{
    let ghost s = table@;
    let len = table.len();
    let table_end = read_u32(table, 4) as usize;
    let local_apic_addr = read_u32(table, 36) as u64;
    let _flags = read_u32(table, 40);
    let ghost start = MADT_ENTRIES_OFFSET as int;
    let mut cpus: Vec<ProcessorLocalAPIC> = Vec::new();
    let mut io_apics: Vec<IoAPIC> = Vec::new();
    let mut int_source_overrides: Vec<InterruptSourceOverride> = Vec::new();
    let mut ptr: usize = MADT_ENTRIES_OFFSET;
    loop
        invariant_except_break
            entries_ok(s, ptr as int, table_end as int),
            cpus@ + madt_cpus(s, ptr as int, table_end as int) == madt_cpus(
                s,
                start,
                table_end as int,
            ),
            io_apics@ + madt_io_apics(s, ptr as int, table_end as int) == madt_io_apics(
                s,
                start,
                table_end as int,
            ),
            int_source_overrides@ + madt_overrides(s, ptr as int, table_end as int)
                == madt_overrides(s, start, table_end as int),
        invariant
            s == table@,
            len == s.len(),
            table_end == le_u32(s, 4),
        ensures
            cpus@ == madt_cpus(s, start, table_end as int),
            io_apics@ == madt_io_apics(s, start, table_end as int),
            int_source_overrides@ == madt_overrides(s, start, table_end as int),
        decreases table_end - ptr,
    {
        let entry_type = table[ptr];
        let entry_size = table[ptr + 1];
        let entry_body_size = (entry_size - 2) as usize;
        let body = ptr + 2;
        let ghost old_cpus = cpus@;
        let ghost old_io = io_apics@;
        let ghost old_ov = int_source_overrides@;
        if entry_type == 0 {
            let e = read_cpu(table, body);
            cpus.push(e);
        } else if entry_type == 1 {
            let e = read_io_apic(table, body);
            io_apics.push(e);
        } else if entry_type == 2 {
            let e = read_override(table, body);
            int_source_overrides.push(e);
        } else if entry_type == 4 {
            let _e = read_nmi(table, body);
        } else {
            let _e = read_address_override(table, body);
        }
        proof {
            assert(cpus@ =~= old_cpus + own_cpus(s, ptr as int));
            assert(io_apics@ =~= old_io + own_io_apics(s, ptr as int));
            assert(int_source_overrides@ =~= old_ov + own_overrides(s, ptr as int));
        }
        let next = body + entry_body_size;
        if next == table_end {
            proof {
                assert(cpus@ =~= old_cpus + madt_cpus(s, ptr as int, table_end as int));
                assert(io_apics@ =~= old_io + madt_io_apics(s, ptr as int, table_end as int));
                assert(int_source_overrides@ =~= old_ov + madt_overrides(
                    s,
                    ptr as int,
                    table_end as int,
                ));
            }
            break;
        }
        proof {
            assert(old_cpus + madt_cpus(s, ptr as int, table_end as int) =~= cpus@ + madt_cpus(
                s,
                next as int,
                table_end as int,
            ));
            assert(old_io + madt_io_apics(s, ptr as int, table_end as int) =~= io_apics@
                + madt_io_apics(s, next as int, table_end as int));
            assert(old_ov + madt_overrides(s, ptr as int, table_end as int)
                =~= int_source_overrides@ + madt_overrides(s, next as int, table_end as int));
        }
        ptr = next;
    }
    ACPIData { local_apic_addr, cpus, io_apics, int_source_overrides }
}

} // verus!
