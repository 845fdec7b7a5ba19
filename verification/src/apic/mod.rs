//! The APICs: the I/O APIC redirection table, the processor-local APIC's
//! registers, and inter-processor interrupts.

pub mod io;
pub mod lapic;
