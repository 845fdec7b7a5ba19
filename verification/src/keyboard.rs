//! The PS/2 keyboard controller: the bytes of its protocol and what the
//! driver decides from the bytes it reads.

use vstd::prelude::*;

verus! {

/// PS/2 ports
pub const PS2_DATA: u16 = 0x60;
pub const PS2_STATUS: u16 = 0x64;
pub const PS2_COMMAND: u16 = 0x64;

/// Device commands and answers.
pub const CMD_IDENTIFY: u8 = 0xF2;
pub const CMD_SCAN_CODE_SET: u8 = 0xF0;
pub const SCAN_CODE_SET_2: u8 = 0x02;
pub const CMD_DISABLE_SCANNING: u8 = 0xF5;
pub const CMD_ENABLE_SCANNING: u8 = 0xF4;
pub const CMD_ECHO: u8 = 0xEE;
pub const CMD_RESET: u8 = 0xFF;
pub const ANSWER_ACK: u8 = 0xFA;
pub const ANSWER_SELF_TEST_OK: u8 = 0xAA;
pub const ANSWER_KEYBOARD: u8 = 0xAB;

/// Controller commands.
pub const CONTROLLER_READ_CONFIG: u8 = 0x20;
pub const CONTROLLER_WRITE_CONFIG: u8 = 0x60;

/// Sensible timeout
pub const IO_WAIT_TIMEOUT: usize = 1000;

/// The output buffer holds a byte for the driver.
pub fn can_read(status: u8) -> (r: bool)
    ensures
        r == (status & 0x1 != 0),
{
    status & 0x1 != 0
}

/// The input buffer has room for a byte from the driver.
pub fn can_write(status: u8) -> (r: bool)
    ensures
        r == (status & 0x2 == 0),
{
    status & 0x2 == 0
}

/// The keyboard subtypes the driver supports, answered after
/// identification.
pub fn is_supported_subtype(kbd_subtype: u8) -> (r: bool)
    ensures
        r == (kbd_subtype == 0x41 || kbd_subtype == 0xC1 || kbd_subtype == 0x83),
{
    kbd_subtype == 0x41 || kbd_subtype == 0xC1 || kbd_subtype == 0x83
}

/// The controller configuration with scan code translation disabled.
pub fn without_translation(conf: u8) -> (r: u8)
    ensures
        r == conf & 0b1011_1111,
{
    conf & 0b1011_1111
}

/// Whether one of the bytes read after a test command is the expected
/// answer.
pub fn test_result(answers: &Vec<u8>, result: u8) -> (r: bool)
    ensures
        r == answers@.contains(result),
{
    let mut i: usize = 0;
    while i < answers.len()
        invariant
            i <= answers@.len(),
            forall|j: int| 0 <= j < i ==> answers@[j] != result,
        decreases answers@.len() - i,
    {
        if answers[i] == result {
            return true;
        }
        i = i + 1;
    }
    false
}

/// The driver's state of the keyboard.
pub struct Keyboard {
    enabled: bool,
}

impl Keyboard {
    pub closed spec fn spec_enabled(&self) -> bool {
        self.enabled
    }

    /// A keyboard not yet initialized.
    pub fn new() -> (r: Keyboard)
        ensures
            !r.spec_enabled(),
    {
        Keyboard { enabled: false }
    }

    pub fn is_enabled(&self) -> (r: bool)
        ensures
            r == self.spec_enabled(),
    {
        self.enabled
    }

    /// Marks the keyboard initialized.
    pub fn set_enabled(&mut self)
        ensures
            final(self).spec_enabled(),
    {
        self.enabled = true;
    }

    /// Whether a byte read on an interrupt is a key event: the keyboard is
    /// initialized and the byte is no acknowledgement or echo.
    pub fn is_key_byte(&self, byte: u8) -> (r: bool)
        ensures
            r == (self.spec_enabled() && byte != ANSWER_ACK && byte != CMD_ECHO),
    {
        self.enabled && byte != ANSWER_ACK && byte != CMD_ECHO
    }
}

} // verus!
