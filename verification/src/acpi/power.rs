//! What the ACPI power management code computes: PCI configuration reads
//! for the AML interpreter, generic register accesses, the switch to ACPI
//! mode, and the value that puts the machine in the S5 (off) state.

use vstd::prelude::*;

verus! {

/// The aligned register and the shift that give the byte at `offset`, read
/// most significant byte first.
pub fn read_pci_u8_location(offset: u16) -> (r: (u8, u32))
    ensures
        r.0 == (offset - offset % 4) % 256,
        r.1 == 24 - 8 * (offset % 4),
{
    let base_offset = offset - offset % 4;
    let shift = 24 - 8 * (offset % 4);
    ((base_offset % 256) as u8, shift as u32)
}

/// The byte of register value `base_value` at `offset`.
pub fn read_pci_u8(base_value: u32, offset: u16) -> (r: u8)
    ensures
        r == (base_value as int / pow2(24 - 8 * (offset % 4) as int)) % 256,
{
    let (_, shift) = read_pci_u8_location(offset);
    let v = base_value >> shift;
    proof {
        lemma_shift_is_div(base_value, shift);
    }
    (v % 256) as u8
}

/// The 16-bit value of register value `base_value` at an even `offset`.
pub fn read_pci_u16(base_value: u32, offset: u16) -> (r: u16)
    requires
        offset % 2 == 0,
    ensures
        r == (base_value as int / pow2(16 - 8 * (offset % 4) as int)) % 0x1_0000,
{
    let shift = (16 - 8 * (offset % 4)) as u32;
    let v = base_value >> shift;
    proof {
        lemma_shift_is_div(base_value, shift);
    }
    (v % 0x1_0000) as u16
}

/// The register number for a 32-bit read at `offset`.
pub fn read_pci_u32_offset(offset: u16) -> (r: u8)
    ensures
        r == offset % 256,
{
    (offset % 256) as u8
}

/// 2 to the power `n`, for the shifts used here.
pub open spec fn pow2(n: int) -> int {
    if n == 0 {
        1
    } else if n == 8 {
        0x100
    } else if n == 16 {
        0x1_0000
    } else {
        0x100_0000
    }
}

proof fn lemma_shift_is_div(v: u32, s: u32)
    requires
        s == 0 || s == 8 || s == 16 || s == 24,
    ensures
        v >> s == v as int / pow2(s as int),
{
    if s == 0 {
        assert(v >> 0u32 == v) by (bit_vector);
    } else if s == 8 {
        assert(v >> 8u32 == v / 0x100) by (bit_vector);
    } else if s == 16 {
        assert(v >> 16u32 == v / 0x1_0000) by (bit_vector);
    } else {
        assert(v >> 24u32 == v / 0x100_0000) by (bit_vector);
    }
}

/// Kinds of address spaces of an ACPI generic address.
#[derive(Debug, Clone, Copy, PartialEq, Eq)]
pub enum AddressSpace {
    SystemMemory,
    SystemIo,
    PciConfigSpace,
    EmbeddedController,
    SMBus,
    SystemCmos,
    PciBarTarget,
    Ipmi,
    GeneralIo,
    GenericSerialBus,
    PlatformCommunicationsChannel,
    FunctionalFixedHardware,
    OemDefined(u8),
}

/// An ACPI generic address.
#[derive(Debug, Clone, Copy)]
pub struct GenericAddress {
    pub address_space: AddressSpace,
    pub bit_width: u8,
    pub bit_offset: u8,
    pub access_size: u8,
    pub address: u64,
}

/// An access to an I/O port of 8, 16 or 32 bits.
#[derive(Debug, Clone, Copy, PartialEq, Eq)]
pub struct PortAccess {
    pub port: u16,
    pub bit_width: u8,
}

/// The generic addresses the kernel can access: I/O ports with a width of
/// 8, 16 or 32 bits.
pub open spec fn accessible(addr: GenericAddress) -> bool {
    &&& addr.address_space == AddressSpace::SystemIo
    &&& addr.address <= 0xffff
    &&& (addr.bit_width == 8 || addr.bit_width == 16 || addr.bit_width == 32)
}

/// The port access that reads or writes `addr`.
pub fn generic_port_access(addr: &GenericAddress) -> (r: PortAccess)
    requires
        accessible(*addr),
    ensures
        r.port == addr.address,
        r.bit_width == addr.bit_width,
{
    PortAccess { port: addr.address as u16, bit_width: addr.bit_width }
}

/// Whether the generic address can be accessed.
pub fn is_accessible(addr: &GenericAddress) -> (r: bool)
    ensures
        r == accessible(*addr),
{
    match addr.address_space {
        AddressSpace::SystemIo => addr.address <= 0xffff && (addr.bit_width == 8 || addr.bit_width
            == 16 || addr.bit_width == 32),
        _ => false,
    }
}

/// A value written to a port of width `bit_width`: its low bits.
pub fn write_value(bit_width: u8, value: u64) -> (r: u64)
    requires
        bit_width == 8 || bit_width == 16 || bit_width == 32,
    ensures
        r == (if bit_width == 8 {
            value % 0x100
        } else if bit_width == 16 {
            value % 0x1_0000
        } else {
            value % 0x1_0000_0000
        }),
{
    if bit_width == 8 {
        value % 0x100
    } else if bit_width == 16 {
        value % 0x1_0000
    } else {
        value % 0x1_0000_0000
    }
}

/// ACPI mode is already on, or cannot be switched to: no SMI command port,
/// no enable and disable values, or the SCI_EN bit of PM1a control set.
pub fn acpi_mode_enabled(smi_cmd_port: u32, acpi_enable: u8, acpi_disable: u8, pm1a_control: u64)
    -> (r: bool)
    ensures
        r == (smi_cmd_port == 0 || (acpi_enable == 0 && acpi_disable == 0) || pm1a_control % 2
            == 1),
{
    assert(pm1a_control & 1 != 0 <==> pm1a_control % 2 == 1) by (bit_vector);
    smi_cmd_port == 0 || (acpi_enable == 0 && acpi_disable == 0) || pm1a_control & 1 != 0
}

/// The value written to PM1a control to enter sleep type `slp_typa`: the
/// type in bits 10 and up (bits shifted past 63 are lost) with the sleep
/// enable bit 13.
pub fn s5_control_value(slp_typa: u64) -> (r: u64)
    ensures
        r == ((slp_typa * 0x400) % 0x1_0000_0000_0000_0000) as u64 | 0x2000,
{
    let sleep_enable: u64 = 1 << 13;
    let x = (slp_typa << 10) | sleep_enable;
    assert((slp_typa << 10u64) == (slp_typa * 0x400) % 0x1_0000_0000_0000_0000) by (bit_vector);
    assert(1u64 << 13u64 == 0x2000) by (bit_vector);
    x
}

} // verus!
