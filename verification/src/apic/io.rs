//! The I/O APIC: redirection table entries and the routing of legacy IRQs.

use vstd::prelude::*;
use crate::acpi::madt::{ACPIData, IoAPIC, InterruptSourceOverride};

verus! {

pub const REG_ID: u32 = 0;
pub const REG_VERSION: u32 = 1;
pub const REG_ARBITRATION_ID: u32 = 2;
/// Number of legacy IRQs routed at boot.
pub const LEGACY_IRQ_COUNT: u8 = 24;
/// Vector of IRQ 0.
pub const IRQ_VECTOR_BASE: u8 = 0x30;

/// How the interrupt will be sent to the CPU(s)
#[derive(Debug, Copy, Clone, PartialEq, Eq)]
pub enum DeliveryMode {
    Fixed,
    LowPriority,
    SMI,
    NMI,
    Init,
    ExternalInt,
}

pub open spec fn delivery_mode_code(m: DeliveryMode) -> u8 {
    match m {
        DeliveryMode::Fixed => 0,
        DeliveryMode::LowPriority => 1,
        DeliveryMode::SMI => 2,
        DeliveryMode::NMI => 4,
        DeliveryMode::Init => 5,
        DeliveryMode::ExternalInt => 7,
    }
}

impl DeliveryMode {
    pub fn code(self) -> (r: u8)
        ensures
            r == delivery_mode_code(self),
    {
        match self {
            DeliveryMode::Fixed => 0,
            DeliveryMode::LowPriority => 1,
            DeliveryMode::SMI => 2,
            DeliveryMode::NMI => 4,
            DeliveryMode::Init => 5,
            DeliveryMode::ExternalInt => 7,
        }
    }
}

/// The flag byte of a redirection entry.
#[derive(Debug, Clone, Copy, PartialEq, Eq)]
pub struct RedirectEntryFlags(pub u8);

/// The flag byte: delivery mode in bits 0-2, then destination mode,
/// pending, polarity and remote IRR in bits 4-7.
pub open spec fn flags_byte(
    delivery_mode: DeliveryMode,
    destination_logical: bool,
    pending: bool,
    pin_polarity_low: bool,
    remote_irr: bool,
) -> u8 {
    (delivery_mode_code(delivery_mode) + (if destination_logical { 16int } else { 0 }) + (if pending {
        32int
    } else {
        0
    }) + (if pin_polarity_low { 64int } else { 0 }) + (if remote_irr { 128int } else { 0 })) as u8
}

fn bit(b: bool) -> (r: u8)
    ensures
        r == (if b { 1u8 } else { 0u8 }),
{
    if b { 1 } else { 0 }
}

impl RedirectEntryFlags {
    /// The trigger mode is not encoded: the flag byte has no bit for it.
    pub fn new(
        delivery_mode: DeliveryMode,
        destination_logical: bool,
        pending: bool,
        pin_polarity_low: bool,
        remote_irr: bool,
        _trigger_mode_level: bool,
    ) -> (r: Self)
        ensures
            r.0 == flags_byte(delivery_mode, destination_logical, pending, pin_polarity_low, remote_irr),
    {
        RedirectEntryFlags(
            delivery_mode.code() + bit(destination_logical) * 16 + bit(pending) * 32 + bit(
                pin_polarity_low,
            ) * 64 + bit(remote_irr) * 128,
        )
    }
}

/// Redirect table entry
#[derive(Debug, Clone, Copy, PartialEq, Eq)]
pub struct RedirectEntry {
    pub vector: u8,
    pub flags: RedirectEntryFlags,
    pub masked: bool,
    pub reserved: [u8; 4],
    pub destination: u8,
}

/// The 64-bit register value of an entry: vector, flags and mask in the
/// low bytes, destination in the top byte.
pub open spec fn entry_bits(e: RedirectEntry) -> int {
    e.vector + e.flags.0 * 0x100 + (if e.masked { 0x1_0000int } else { 0 }) + e.reserved[0]
        * 0x100_0000 + e.reserved[1] * 0x1_0000_0000 + e.reserved[2] * 0x100_0000_0000
        + e.reserved[3] * 0x1_0000_0000_0000 + e.destination * 0x100_0000_0000_0000
}

impl RedirectEntry {
    pub fn new(vector: u8, flags: RedirectEntryFlags, masked: bool, destination: u8) -> (r: Self)
        ensures
            r.vector == vector,
            r.flags == flags,
            r.masked == masked,
            r.reserved == [0u8, 0u8, 0u8, 0u8],
            r.destination == destination,
    {
        Self { vector, flags, masked, reserved: [0; 4], destination }
    }

    /// The entry as the 64-bit value of its two registers.
    pub fn to_bits(&self) -> (r: u64)
        ensures
            r == entry_bits(*self),
    {
        self.vector as u64 + (self.flags.0 as u64) * 0x100 + (bit(self.masked) as u64) * 0x1_0000
            + (self.reserved[0] as u64) * 0x100_0000 + (self.reserved[1] as u64) * 0x1_0000_0000
            + (self.reserved[2] as u64) * 0x100_0000_0000 + (self.reserved[3] as u64)
            * 0x1_0000_0000_0000 + (self.destination as u64) * 0x100_0000_0000_0000
    }
}

/// The register numbers and values that store `redirect` for
/// `relative_irq`: the low half first, then the high half.
pub fn redirect_entry_writes(relative_irq: u8, redirect: &RedirectEntry) -> (r: [(u32, u32); 2])
    ensures
        r[0].0 == 0x10 + relative_irq * 2,
        r[1].0 == 0x10 + relative_irq * 2 + 1,
        r[0].1 == entry_bits(*redirect) % 0x1_0000_0000,
        r[1].1 == entry_bits(*redirect) / 0x1_0000_0000,
{
    let req = 0x10 + (relative_irq as u32) * 2;
    let bits = redirect.to_bits();
    [(req, (bits % 0x1_0000_0000) as u32), (req + 1, (bits / 0x1_0000_0000) as u32)]
}

/// The entry stored in the two registers of an entry: `lo` and `hi`
/// halves of its 64-bit value. The mask byte must be 0 or 1.
pub fn read_redirect_entry(lo: u32, hi: u32) -> (r: RedirectEntry)
    requires
        (lo / 0x1_0000) % 0x100 <= 1,
    ensures
        entry_bits(r) == lo + hi * 0x1_0000_0000,
{
    let b0 = (lo % 0x100) as u8;
    let b1 = ((lo / 0x100) % 0x100) as u8;
    let b2 = ((lo / 0x1_0000) % 0x100) as u8;
    let b3 = (lo / 0x100_0000) as u8;
    let b4 = (hi % 0x100) as u8;
    let b5 = ((hi / 0x100) % 0x100) as u8;
    let b6 = ((hi / 0x1_0000) % 0x100) as u8;
    let b7 = (hi / 0x100_0000) as u8;
    RedirectEntry {
        vector: b0,
        flags: RedirectEntryFlags(b1),
        masked: b2 == 1,
        reserved: [b3, b4, b5, b6],
        destination: b7,
    }
}

/// The address of register `offset` of the I/O APIC at `io_apic_addr`:
/// the register selector at offset 0, the data window at 0x10.
pub fn actual_addr(io_apic_addr: u32, offset: u32) -> (r: u64)
    requires
        io_apic_addr + offset <= u32::MAX,
    ensures
        r == io_apic_addr + offset,
{
    (io_apic_addr + offset) as u64
}

/// APIC id from the ID register.
pub fn id(reg: u32) -> (r: u8)
    ensures
        r == (reg / 0x100_0000) % 16,
{
    ((reg / 0x100_0000) % 16) as u8
}

/// Version number and max entry from the version register.
pub fn version(reg: u32) -> (r: (u8, u8))
    ensures
        r.0 == reg % 256,
        r.1 == (reg / 0x1_0000) % 256,
{
    ((reg % 256) as u8, ((reg / 0x1_0000) % 256) as u8)
}

/// Whether an I/O APIC whose highest entry is `max_entry` handles `irq`.
pub open spec fn handles(apic: IoAPIC, max_entry: u8, irq: u8) -> bool {
    irq >= apic.gsib && irq - apic.gsib <= max_entry
}

/// Which I/O APIC handles `irq`, and at which entry: the first, in table
/// order, whose range covers it. `max_entries[i]` is the highest entry of
/// `io_apics[i]`.
pub fn set_irq_handler(io_apics: &[IoAPIC], max_entries: &[u8], irq: u8) -> (r: Option<(usize, u8)>)
    requires
        io_apics@.len() == max_entries@.len(),
    ensures
        match r {
            Some((i, rel)) => {
                &&& i < io_apics@.len()
                &&& handles(io_apics@[i as int], max_entries@[i as int], irq)
                &&& rel == irq - io_apics@[i as int].gsib
                &&& forall|j: int|
                    0 <= j < i ==> !handles(io_apics@[j], max_entries@[j], irq)
            },
            None => forall|j: int|
                0 <= j < io_apics@.len() ==> !handles(io_apics@[j], max_entries@[j], irq),
        },
{
    let mut i: usize = 0;
    while i < io_apics.len()
        invariant
            i <= io_apics@.len(),
            io_apics@.len() == max_entries@.len(),
            forall|j: int| 0 <= j < i ==> !handles(io_apics@[j], max_entries@[j], irq),
        decreases io_apics@.len() - i,
    {
        let apic = io_apics[i];
        if (irq as u32) >= apic.gsib {
            let relative_irq = (irq as u32) - apic.gsib;
            let max = max_entries[i] as u32;
            if relative_irq <= max {
                return Some((i, relative_irq as u8));
            }
        }
        i = i + 1;
    }
    None
}

/// The routing of legacy IRQ `src`: its global interrupt, low polarity and
/// level trigger, from the last override of bus 0 for it among the first
/// `n` overrides; by default the IRQ itself, high polarity, edge triggered.
pub open spec fn irq_route(ovs: Seq<InterruptSourceOverride>, src: u8, n: nat) -> (u8, bool, bool)
    decreases n,
{
    if n == 0 {
        (src, false, false)
    } else {
        let o = ovs[n - 1];
        if o.bus_source == 0 && o.irq_source == src {
            ((o.gsi % 256) as u8, o.flags & 2 != 0, o.flags & 8 != 0)
        } else {
            irq_route(ovs, src, (n - 1) as nat)
        }
    }
}

/// The redirection entry of legacy IRQ `src` for processor `cpu`.
pub open spec fn legacy_entry(ovs: Seq<InterruptSourceOverride>, src: u8, cpu: u8) -> RedirectEntry {
    let (irq, polarity_low, _) = irq_route(ovs, src, ovs.len());
    RedirectEntry {
        vector: (IRQ_VECTOR_BASE + irq) as u8,
        flags: RedirectEntryFlags(flags_byte(DeliveryMode::Fixed, false, false, polarity_low, false)),
        masked: false,
        reserved: [0u8, 0u8, 0u8, 0u8],
        destination: cpu,
    }
}

/// Every override of a legacy IRQ on bus 0 names an interrupt whose
/// vector fits in a byte.
pub open spec fn overrides_fit(ovs: Seq<InterruptSourceOverride>) -> bool {
    forall|i: int|
        0 <= i < ovs.len() && ovs[i].bus_source == 0 && ovs[i].irq_source < LEGACY_IRQ_COUNT
            ==> ovs[i].gsi % 256 + IRQ_VECTOR_BASE <= 255
}

proof fn lemma_irq_route_fits(ovs: Seq<InterruptSourceOverride>, src: u8, n: nat)
    requires
        overrides_fit(ovs),
        n <= ovs.len(),
        src < LEGACY_IRQ_COUNT,
    ensures
        irq_route(ovs, src, n).0 + IRQ_VECTOR_BASE <= 255,
    decreases n,
{
    if n > 0 {
        lemma_irq_route_fits(ovs, src, (n - 1) as nat);
    }
}

fn route(ovs: &[InterruptSourceOverride], src_irq: u8) -> (r: (u8, bool, bool))
    ensures
        r == irq_route(ovs@, src_irq, ovs@.len()),
{
    let mut irq = src_irq;
    let mut pin_polarity_low = false;
    let mut trigger_mode_level = false;
    let mut k: usize = 0;
    while k < ovs.len()
        invariant
            k <= ovs@.len(),
            (irq, pin_polarity_low, trigger_mode_level) == irq_route(ovs@, src_irq, k as nat),
        decreases ovs@.len() - k,
    {
        let o = ovs[k];
        if o.bus_source == 0 && o.irq_source == src_irq {
            irq = (o.gsi % 256) as u8;
            pin_polarity_low = o.flags & 2 != 0;
            trigger_mode_level = o.flags & 8 != 0;
        }
        k = k + 1;
    }
    (irq, pin_polarity_low, trigger_mode_level)
}

/// The redirection entries of the legacy IRQs 0 to 23, in order: each sent
/// to the first processor's ACPI id, at vector 0x30 plus its routed
/// interrupt, unmasked.
pub fn init(acpi_data: &ACPIData) -> (r: Vec<RedirectEntry>)
    requires
        acpi_data.cpus@.len() > 0,
        acpi_data.io_apics@.len() > 0,
        overrides_fit(acpi_data.int_source_overrides@),
    ensures
        r@.len() == LEGACY_IRQ_COUNT,
        forall|i: int|
            0 <= i < LEGACY_IRQ_COUNT ==> r@[i] == legacy_entry(
                acpi_data.int_source_overrides@,
                i as u8,
                acpi_data.cpus@[0].acpi_id,
            ),
{
    let handling_cpu_id = acpi_data.cpus[0].acpi_id;
    let ovs = acpi_data.int_source_overrides.as_slice();
    let mut result: Vec<RedirectEntry> = Vec::new();
    let mut src_irq: u8 = 0;
    while src_irq < LEGACY_IRQ_COUNT
        invariant
            src_irq <= LEGACY_IRQ_COUNT,
            ovs@ == acpi_data.int_source_overrides@,
            overrides_fit(ovs@),
            handling_cpu_id == acpi_data.cpus@[0].acpi_id,
            result@.len() == src_irq,
            forall|i: int|
                0 <= i < src_irq ==> result@[i] == legacy_entry(ovs@, i as u8, handling_cpu_id),
        decreases LEGACY_IRQ_COUNT - src_irq,
    {
        let (irq, pin_polarity_low, trigger_mode_level) = route(ovs, src_irq);
        proof {
            lemma_irq_route_fits(ovs@, src_irq, ovs@.len());
        }
        let entry = RedirectEntry::new(
            IRQ_VECTOR_BASE + irq,
            RedirectEntryFlags::new(
                DeliveryMode::Fixed,
                false,
                false,
                pin_polarity_low,
                false,
                trigger_mode_level,
            ),
            false,
            handling_cpu_id,
        );
        result.push(entry);
        src_irq = src_irq + 1;
    }
    result
}

} // verus!
