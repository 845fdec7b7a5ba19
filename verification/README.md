# d7os

The verified core of the D7 hobby kernel, written in Verus.

- `src/` is the library. Its functions are verified, apart from the small
  trusted wrappers (marked `external_body`) around the `hashbrown` maps and
  sets it keeps its tables in, whose contracts state what those calls do:
  - `filesystem/`: paths, the path tree, the virtual filesystem's nodes and
    descriptors, attachment points served by processes, the kernel's special
    files, the static filesystem on disk, and the results and events of file
    operations;
  - device logic: the text console (`vga_buffer`, `vga_console`), VirtIO
    device discovery and bring-up, feature negotiation, queues and block
    requests, the RTL8139 network card, the PICs, the PIT,
    the I/O APIC and local APIC, the UART, the PS/2 keyboard, PCI
    configuration reads, the CMOS clock, CPUID checks and the TSC;
  - parsers: ACPI tables (RSDP, RSDT/XSDT, MADT), ELF executables and the
    initial ramdisk;
  - `laws.rs`: properties that span several operations.
- `app/` is the kernel's platform side: port input and output, the loops
  that wait on devices, the encoding of the filesystem protocol, and the
  table of driver file objects around the filesystem.
- `tests/` runs the library on concrete values.
