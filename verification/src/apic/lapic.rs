//! The processor-local APIC: its registers, its timer, and the interrupt
//! command register used for inter-processor interrupts.

use vstd::prelude::*;

verus! {

/// Offset of a local APIC register.
#[derive(Debug, Clone, Copy, PartialEq, Eq)]
pub struct LapicReg(pub u64);

impl LapicReg {
    pub fn get(self) -> (r: u64)
        ensures
            r == self.0,
    {
        self.0
    }
}

pub const LAPIC_ID: u64 = 0x20;
pub const LAPIC_VERSION: u64 = 0x30;
pub const TASK_PRIORITY: u64 = 0x80;
pub const ARBITRATION_PRIORITY: u64 = 0x90;
pub const PROCESSOR_PRIORITY: u64 = 0xa0;
pub const END_OF_INTERRUPT: u64 = 0xb0;
pub const REMOTE_READ: u64 = 0xc0;
pub const LOCAL_DESTINATION: u64 = 0xd0;
pub const DESTINATION_FORMAT: u64 = 0xe0;
pub const SPURIOUS_IV: u64 = 0xf0;
pub const ISR_BASE: u64 = 0x100;
pub const TRIGGER_MODE_BASE: u64 = 0x180;
pub const INTERRUPT_REQUEST: u64 = 0x200;
pub const ERROR_STATUS: u64 = 0x280;
pub const LVT_CMCI: u64 = 0x2f0;
pub const INTERRUPT_COMMAND_BASE: u64 = 0x300;
pub const INTERRUPT_COMMAND_HIGH: u64 = 0x310;
pub const LVT_TIMER: u64 = 0x320;
pub const LVT_THERMAL_SENSOR: u64 = 0x330;
pub const LVT_PM_COUNTERS: u64 = 0x340;
pub const LVT_LINT0: u64 = 0x350;
pub const LVT_LINT1: u64 = 0x360;
pub const LVT_ERROR: u64 = 0x370;
pub const TIMER_INITIAL_COUNT: u64 = 0x380;
pub const TIMER_CURRENT_COUNT: u64 = 0x390;
pub const TIMER_DIVIDE_CONFIG: u64 = 0x3e0;

pub const TIMER_MODE_ONE_SHOT: u32 = 0x00000;
pub const TIMER_MODE_DISABLED: u32 = 0x10000;
pub const TIMER_MODE_PERIODIC: u32 = 0x20000;
pub const TIMER_MODE_DEADLINE: u32 = 0x40000;

pub const TIMER_DIVIDE_BY_1: u32 = 0xb;
pub const TIMER_DIVIDE_BY_2: u32 = 0x0;
pub const TIMER_DIVIDE_BY_4: u32 = 0x8;
pub const TIMER_DIVIDE_BY_8: u32 = 0x2;
pub const TIMER_DIVIDE_BY_16: u32 = 0xa;
pub const TIMER_DIVIDE_BY_32: u32 = 0x1;
pub const TIMER_DIVIDE_BY_64: u32 = 0x9;
pub const TIMER_DIVIDE_BY_128: u32 = 0x3;

/// A value written to a local APIC register.
#[derive(Debug, Clone, Copy, PartialEq, Eq)]
pub struct RegWrite {
    pub reg: LapicReg,
    pub value: u32,
}

pub open spec fn rw(reg: u64, value: u32) -> RegWrite {
    RegWrite { reg: LapicReg(reg), value }
}

/// Identifier of a processor: its local APIC id.
#[derive(Debug, Clone, Copy, PartialEq, Eq)]
pub struct ProcessorId(pub u8);

/// Address of local APIC register `offset` for the APIC mapped at `base`.
pub fn register_address(base: u64, offset: LapicReg) -> (r: u64)
    requires
        base + offset.0 <= u64::MAX,
    ensures
        r == base + offset.0,
{
    base + offset.get()
}

/// Get APIC ID of the current CPU, from the ID register.
pub fn processor_id(id_reg: u32) -> (r: ProcessorId)
    ensures
        r.0 == id_reg / 0x100_0000,
{
    ProcessorId((id_reg / 0x100_0000) as u8)
}

/// Tell LAPIC that the interrupt has been processed
pub fn write_eoi() -> (r: RegWrite)
    ensures
        r == rw(END_OF_INTERRUPT, 0),
{
    RegWrite { reg: LapicReg(END_OF_INTERRUPT), value: 0 }
}

/// The timer configuration: TSC-deadline mode when the processor has it,
/// otherwise one-shot mode with divider 2 (1 is buggy on some devices).
pub fn configure_timer(vector_number: u8, deadline_mode: bool) -> (r: Vec<RegWrite>)
    ensures
        r@ == (if deadline_mode {
            seq![rw(LVT_TIMER, (vector_number + TIMER_MODE_DEADLINE) as u32)]
        } else {
            seq![
                rw(TIMER_DIVIDE_CONFIG, TIMER_DIVIDE_BY_2),
                rw(LVT_TIMER, vector_number as u32),
            ]
        }),
{
    let mut w: Vec<RegWrite> = Vec::new();
    if deadline_mode {
        w.push(RegWrite { reg: LapicReg(LVT_TIMER), value: (vector_number as u32) + TIMER_MODE_DEADLINE });
    } else {
        w.push(RegWrite { reg: LapicReg(TIMER_DIVIDE_CONFIG), value: TIMER_DIVIDE_BY_2 });
        w.push(RegWrite { reg: LapicReg(LVT_TIMER), value: (vector_number as u32) + TIMER_MODE_ONE_SHOT });
    }
    proof {
        if deadline_mode {
            assert(w@ =~= seq![rw(LVT_TIMER, (vector_number + TIMER_MODE_DEADLINE) as u32)]);
        } else {
            assert(w@ =~= seq![
                rw(TIMER_DIVIDE_CONFIG, TIMER_DIVIDE_BY_2),
                rw(LVT_TIMER, vector_number as u32),
            ]);
        }
    }
    w
}

/// Arms the one-shot timer for `ticks` timer ticks; with divider 2 the
/// initial count is half of them. Not available in TSC-deadline mode.
pub fn set_timer_ticks(ticks: u32, deadline_mode: bool) -> (r: RegWrite)
    requires
        !deadline_mode,
    ensures
        r == rw(TIMER_INITIAL_COUNT, ticks / 2),
{
    set_timer_raw(ticks / 2)
}

/// Writes the timer's initial count.
pub fn set_timer_raw(ticks: u32) -> (r: RegWrite)
    ensures
        r == rw(TIMER_INITIAL_COUNT, ticks),
{
    RegWrite { reg: LapicReg(TIMER_INITIAL_COUNT), value: ticks }
}

/// The register holding the timer's current count.
pub fn get_timer_raw() -> (r: LapicReg)
    ensures
        r.0 == TIMER_CURRENT_COUNT,
{
    LapicReg(TIMER_CURRENT_COUNT)
}

/// The spurious interrupt vector register with vector 0xff and the APIC
/// software-enable bit set.
pub fn enable_local_apic(spurious: u32) -> (r: u32)
    ensures
        r == spurious | 0x1ff,
{
    let r = spurious | 0xff | 0x100;
    assert(spurious | 0xff | 0x100 == spurious | 0x1ff) by (bit_vector);
    r
}

/// Vector of the local timer set up on each processor.
pub const TIMER_VECTOR: u8 = 0xd8;

/// LAPIC initalization, done for each processor: the enabled spurious
/// register value, then the timer configuration.
pub fn per_processor_init(spurious: u32, deadline_mode: bool) -> (r: (u32, Vec<RegWrite>))
    ensures
        r.0 == spurious | 0x1ff,
        r.1@ == (if deadline_mode {
            seq![rw(LVT_TIMER, (TIMER_VECTOR + TIMER_MODE_DEADLINE) as u32)]
        } else {
            seq![rw(TIMER_DIVIDE_CONFIG, TIMER_DIVIDE_BY_2), rw(LVT_TIMER, TIMER_VECTOR as u32)]
        }),
{
    (enable_local_apic(spurious), configure_timer(TIMER_VECTOR, deadline_mode))
}

/// The high interrupt command word naming processor `acpi_id`.
pub open spec fn icr_high(acpi_id: u8) -> u32 {
    (acpi_id * 0x100_0000) as u32
}

/// The two command writes (high word, then low word) of an INIT IPI and a
/// STARTUP IPI with start page 2, to wake processor `acpi_id`.
pub fn apic_wakeup_processor(acpi_id: u8) -> (r: ([RegWrite; 2], [RegWrite; 2]))
    ensures
        r.0[0] == rw(INTERRUPT_COMMAND_HIGH, icr_high(acpi_id)),
        r.0[1] == rw(INTERRUPT_COMMAND_BASE, 0x4500),
        r.1[0] == rw(INTERRUPT_COMMAND_HIGH, icr_high(acpi_id)),
        r.1[1] == rw(INTERRUPT_COMMAND_BASE, 0x4602),
{
    let hi = (acpi_id as u32) * 0x100_0000;
    (
        [
            RegWrite { reg: LapicReg(INTERRUPT_COMMAND_HIGH), value: hi },
            RegWrite { reg: LapicReg(INTERRUPT_COMMAND_BASE), value: 0x00004500 },
        ],
        [
            RegWrite { reg: LapicReg(INTERRUPT_COMMAND_HIGH), value: hi },
            RegWrite { reg: LapicReg(INTERRUPT_COMMAND_BASE), value: 0x4602 },
        ],
    )
}

/// The command writes of an interrupt `int_vector` sent to `acpi_id`.
pub fn send_ipi(acpi_id: u8, int_vector: u8) -> (r: [RegWrite; 2])
    ensures
        r[0] == rw(INTERRUPT_COMMAND_HIGH, icr_high(acpi_id)),
        r[1] == rw(INTERRUPT_COMMAND_BASE, int_vector as u32),
{
    [
        RegWrite { reg: LapicReg(INTERRUPT_COMMAND_HIGH), value: (acpi_id as u32) * 0x100_0000 },
        RegWrite { reg: LapicReg(INTERRUPT_COMMAND_BASE), value: int_vector as u32 },
    ]
}

/// Whether a sent interrupt is still pending delivery (bit 12).
pub fn ipi_pending(icr_low: u32) -> (r: bool)
    ensures
        r == (icr_low & 0x1000 != 0),
{
    icr_low & 0x1000 != 0
}

/// The command writes broadcasting `int_vector` to all processors, this one
/// included (shorthand 0b10) or not (0b11).
pub fn broadcast_ipi(include_self: bool, int_vector: u8) -> (r: [RegWrite; 2])
    ensures
        r[0] == rw(INTERRUPT_COMMAND_HIGH, 0),
        r[1] == rw(INTERRUPT_COMMAND_BASE, (int_vector + (if include_self {
            0x8_0000int
        } else {
            0xc_0000int
        })) as u32),
{
    let mode: u32 = if include_self { 0b10 << 18 } else { 0b11 << 18 };
    assert(0b10u32 << 18 == 0x8_0000) by (bit_vector);
    assert(0b11u32 << 18 == 0xc_0000) by (bit_vector);
    [
        RegWrite { reg: LapicReg(INTERRUPT_COMMAND_HIGH), value: 0 },
        RegWrite { reg: LapicReg(INTERRUPT_COMMAND_BASE), value: (int_vector as u32) + mode },
    ]
}

} // verus!
