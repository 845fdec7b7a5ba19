//! ACPI: the root pointer, the root table's entries and the tables that
//! the kernel reads.

pub mod rsdt;
pub mod tables;
pub mod madt;
pub mod power;
