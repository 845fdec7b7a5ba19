//! The COM1 serial port, output only.

use vstd::prelude::*;
use crate::port::{PortWrite, pw};

verus! {

pub const COM1: u16 = 0x3f8;
/// The byte sent in loopback mode to test the chip.
pub const TEST_BYTE: u8 = 0xae;

/// The writes that set up the port at `port_base` and send the test byte in
/// loopback mode.
pub fn init_serial(port_base: u16) -> (r: Vec<PortWrite>)
    requires
        port_base + 4 <= u16::MAX,
    ensures
        r@ == seq![
            pw((port_base + 1) as u16, 0x00),
            pw((port_base + 3) as u16, 0x80),
            pw(port_base, 0x03),
            pw((port_base + 1) as u16, 0x00),
            pw((port_base + 3) as u16, 0x03),
            pw((port_base + 2) as u16, 0xc7),
            pw((port_base + 4) as u16, 0x0b),
            pw((port_base + 4) as u16, 0x1b),
            pw(port_base, TEST_BYTE),
        ],
{
    let mut w: Vec<PortWrite> = Vec::new();
    w.push(PortWrite { port: port_base + 1, value: 0x00 });  // Disable all interrupts
    w.push(PortWrite { port: port_base + 3, value: 0x80 });  // Enable DLAB (set baud rate divisor)
    w.push(PortWrite { port: port_base + 0, value: 0x03 });  // Set divisor to 3 (lo byte) 38400 baud
    w.push(PortWrite { port: port_base + 1, value: 0x00 });  //                  (hi byte)
    w.push(PortWrite { port: port_base + 3, value: 0x03 });  // 8 bits, no parity, one stop bit
    w.push(PortWrite { port: port_base + 2, value: 0xc7 });  // Enable FIFO, clear them, with 14-byte threshold
    w.push(PortWrite { port: port_base + 4, value: 0x0b });  // IRQs enabled, RTS/DSR set
    w.push(PortWrite { port: port_base + 4, value: 0x1b });  // Set in loopback mode, test the serial chip
    w.push(PortWrite { port: port_base + 0, value: TEST_BYTE });  // Test serial chip
    proof {
        assert(w@ =~= seq![
            pw((port_base + 1) as u16, 0x00),
            pw((port_base + 3) as u16, 0x80),
            pw(port_base, 0x03),
            pw((port_base + 1) as u16, 0x00),
            pw((port_base + 3) as u16, 0x03),
            pw((port_base + 2) as u16, 0xc7),
            pw((port_base + 4) as u16, 0x0b),
            pw((port_base + 4) as u16, 0x1b),
            pw(port_base, TEST_BYTE),
        ]);
    }
    w
}

/// After the test byte: the chip works when it echoed the byte back, and
/// is then put in normal operation mode (not loopback, IRQs enabled, OUT#1
/// and OUT#2 set).
pub fn finish_init_serial(port_base: u16, echoed: u8) -> (r: Option<PortWrite>)
    requires
        port_base + 4 <= u16::MAX,
    ensures
        r == (if echoed == TEST_BYTE {
            Some(pw((port_base + 4) as u16, 0x0f))
        } else {
            None::<PortWrite>
        }),
{
    if echoed != TEST_BYTE {
        return None;
    }
    Some(PortWrite { port: port_base + 4, value: 0x0f })
}

/// Whether the transmit holding register is empty (bit 5 of the line
/// status register).
pub fn is_transmit_empty(line_status: u8) -> (r: bool)
    ensures
        r == (line_status & 0x20 != 0),
{
    line_status & 0x20 != 0
}

/// Whether COM1 was found working.
pub struct SerialPorts {
    has_com1: bool,
}

impl SerialPorts {
    pub closed spec fn spec_has_com1(&self) -> bool {
        self.has_com1
    }

    pub fn new(has_com1: bool) -> (r: Self)
        ensures
            r.spec_has_com1() == has_com1,
    {
        SerialPorts { has_com1 }
    }

    pub fn has_com1(&self) -> (r: bool)
        ensures
            r == self.spec_has_com1(),
    {
        self.has_com1
    }
}

} // verus!
