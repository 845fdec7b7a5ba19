//! Verified core of the D7 kernel: parsers for firmware tables and
//! executables, device register encodings, the text console model and the
//! virtual filesystem's path logic.

pub mod bytes;
pub mod elf_parser;
pub mod acpi;
pub mod vga_buffer;
pub mod vga_console;
pub mod virtio;
pub mod cpuid;
pub mod rtc;
pub mod port;
pub mod pic;
pub mod apic;
pub mod pit;
pub mod uart;
pub mod pci;
pub mod rtl8139;
pub mod nic;
pub mod initrd;
pub mod keyboard;
pub mod tsc;
pub mod filesystem;
pub mod laws;
