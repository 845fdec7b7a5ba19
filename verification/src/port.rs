//! Port writes that the drivers plan and the platform layer carries out.

use vstd::prelude::*;

verus! {

/// One byte written to an I/O port.
#[derive(Debug, Clone, Copy, PartialEq, Eq)]
pub struct PortWrite {
    pub port: u16,
    pub value: u8,
}

/// The write of `value` to `port`.
pub open spec fn pw(port: u16, value: u8) -> PortWrite {
    PortWrite { port, value }
}

/// A write of one, two or four bytes to an I/O port.
#[derive(Debug, Clone, Copy, PartialEq, Eq, Structural)]
pub enum IoWrite {
    Byte(u16, u8),
    Word(u16, u16),
    Dword(u16, u32),
}

} // verus!
