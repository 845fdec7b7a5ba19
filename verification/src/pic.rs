//! The two chained 8259 programmable interrupt controllers.

use vstd::prelude::*;
use crate::port::{PortWrite, pw};

verus! {

// PIC ports
pub const PIC1_COMMAND: u16 = 0x20;
pub const PIC2_COMMAND: u16 = 0xA0;
pub const PIC1_DATA: u16 = 0x21;
pub const PIC2_DATA: u16 = 0xA1;

// PIC commands
pub const PIC_CMD_EOI: u8 = 0x20;
pub const PIC_CMD_INIT: u8 = 0x11;
pub const PIC_CMD_READ_ISR: u8 = 0x0b;

/// Port used to wait for an I/O operation to complete.
pub const IO_WAIT_PORT: u16 = 0x80;

/// Interrupt masks set at initialization: PIT, keyboard and cascade on the
/// first; IRQs 9-11 and the primary ATA on the second.
pub const MASK1: u8 = 0b11111000;
pub const MASK2: u8 = 0b10110001;

/// One controller and the first interrupt vector it raises.
#[derive(Debug, Clone, Copy)]
pub struct Pic {
    pub offset: u8,
    pub command_port: u16,
    pub data_port: u16,
}

impl Pic {
    /// Test if an interrupt id is operated by this pic
    /// The write that sends end of interrupt to this controller.
    pub fn send_eoi(&self) -> (r: PortWrite)
        ensures
            r == pw(self.command_port, PIC_CMD_EOI),
    {
        PortWrite { port: self.command_port, value: PIC_CMD_EOI }
    }

    pub fn handles_interrupt(&self, interupt_id: u8) -> (r: bool)
        requires
            self.offset <= 247,
        ensures
            r == (self.offset <= interupt_id < self.offset + 8),
    {
        self.offset <= interupt_id && interupt_id < self.offset + 8
    }
}

/// The controller pair.
pub struct ChainedPics {
    pics: [Pic; 2],
    enabled: bool,
}

impl ChainedPics {
    pub closed spec fn offsets(&self) -> (u8, u8) {
        (self.pics[0].offset, self.pics[1].offset)
    }

    pub closed spec fn spec_enabled(&self) -> bool {
        self.enabled
    }

    /// The controllers are on their standard ports and their vector ranges
    /// fit in a byte.
    pub closed spec fn wf(&self) -> bool {
        &&& self.pics[0].command_port == PIC1_COMMAND
        &&& self.pics[0].data_port == PIC1_DATA
        &&& self.pics[1].command_port == PIC2_COMMAND
        &&& self.pics[1].data_port == PIC2_DATA
        &&& self.pics[0].offset <= 247
        &&& self.pics[1].offset <= 247
    }

    /// Controllers raising vectors from `pic1_offset` and `pic2_offset`,
    /// not yet initialized.
    pub fn new(pic1_offset: u8, pic2_offset: u8) -> (r: ChainedPics)
        requires
            pic1_offset <= 247,
            pic2_offset <= 247,
        ensures
            r.wf(),
            r.offsets() == (pic1_offset, pic2_offset),
            !r.spec_enabled(),
    {
        ChainedPics {
            pics: [
                Pic { offset: pic1_offset, command_port: PIC1_COMMAND, data_port: PIC1_DATA },
                Pic { offset: pic2_offset, command_port: PIC2_COMMAND, data_port: PIC2_DATA },
            ],
            enabled: false,
        }
    }

    /// Init - remap irqs: the port writes of the initialization sequence,
    /// each followed by a write to the wait port, then the masks.
    pub fn init(&mut self) -> (r: Vec<PortWrite>)
        requires
            old(self).wf(),
        ensures
            final(self).wf(),
            final(self).offsets() == old(self).offsets(),
            final(self).spec_enabled(),
            r@ == init_sequence(old(self).offsets().0, old(self).offsets().1),
    {
        let mut w: Vec<PortWrite> = Vec::new();
        w.push(PortWrite { port: self.pics[0].command_port, value: PIC_CMD_INIT });
        w.push(PortWrite { port: IO_WAIT_PORT, value: 0 });
        w.push(PortWrite { port: self.pics[1].command_port, value: PIC_CMD_INIT });
        w.push(PortWrite { port: IO_WAIT_PORT, value: 0 });
        w.push(PortWrite { port: self.pics[0].data_port, value: self.pics[0].offset });
        w.push(PortWrite { port: IO_WAIT_PORT, value: 0 });
        w.push(PortWrite { port: self.pics[1].data_port, value: self.pics[1].offset });
        w.push(PortWrite { port: IO_WAIT_PORT, value: 0 });
        w.push(PortWrite { port: self.pics[0].data_port, value: 4 });
        w.push(PortWrite { port: IO_WAIT_PORT, value: 0 });
        w.push(PortWrite { port: self.pics[1].data_port, value: 2 });
        w.push(PortWrite { port: IO_WAIT_PORT, value: 0 });
        w.push(PortWrite { port: self.pics[0].data_port, value: 1 });
        w.push(PortWrite { port: IO_WAIT_PORT, value: 0 });
        w.push(PortWrite { port: self.pics[1].data_port, value: 1 });
        w.push(PortWrite { port: IO_WAIT_PORT, value: 0 });
        w.push(PortWrite { port: self.pics[0].data_port, value: MASK1 });
        w.push(PortWrite { port: self.pics[1].data_port, value: MASK2 });
        self.enabled = true;
        proof {
            assert(w@ =~= init_sequence(old(self).offsets().0, old(self).offsets().1));
        }
        w
    }

    /// Disable PICs by masking all interrupts.
    pub fn disable(&mut self) -> (r: Vec<PortWrite>)
        requires
            old(self).wf(),
        ensures
            final(self).wf(),
            final(self).offsets() == old(self).offsets(),
            !final(self).spec_enabled(),
            r@ == seq![pw(PIC1_DATA, 0xff), pw(PIC2_DATA, 0xff)],
    {
        let mut w: Vec<PortWrite> = Vec::new();
        w.push(PortWrite { port: self.pics[0].data_port, value: 0xff });
        w.push(PortWrite { port: self.pics[1].data_port, value: 0xff });
        self.enabled = false;
        proof {
            assert(w@ =~= seq![pw(PIC1_DATA, 0xff), pw(PIC2_DATA, 0xff)]);
        }
        w
    }

    /// Whether the controllers are initialized and not disabled.
    pub fn is_enabled(&self) -> (r: bool)
        ensures
            r == self.spec_enabled(),
    {
        self.enabled
    }

    /// Verify that an interrupt is produced by pics
    pub fn handles_interrupt(&self, interrupt_id: u8) -> (r: bool)
        requires
            self.wf(),
        ensures
            r == (handled_by(self.offsets().0, interrupt_id) || handled_by(
                self.offsets().1,
                interrupt_id,
            )),
    {
        self.pics[0].handles_interrupt(interrupt_id) || self.pics[1].handles_interrupt(
            interrupt_id,
        )
    }

    /// Send end of interrupt notification: to the second controller when it
    /// raised the interrupt, then to the first, for interrupts of either.
    pub fn notify_eoi(&self, interrupt_id: u8) -> (r: Vec<PortWrite>)
        requires
            self.wf(),
        ensures
            r@ == eoi_writes(self.offsets().0, self.offsets().1, interrupt_id),
    {
        let mut w: Vec<PortWrite> = Vec::new();
        if self.handles_interrupt(interrupt_id) {
            if self.pics[1].handles_interrupt(interrupt_id) {
                w.push(PortWrite { port: self.pics[1].command_port, value: PIC_CMD_EOI });
            }
            w.push(PortWrite { port: self.pics[0].command_port, value: PIC_CMD_EOI });
        }
        proof {
            assert(w@ =~= eoi_writes(self.offsets().0, self.offsets().1, interrupt_id));
        }
        w
    }

    /// Send end of interrupt notification to primary PIC only
    pub fn notify_eoi_primary(&self) -> (r: PortWrite)
        requires
            self.wf(),
        ensures
            r == pw(PIC1_COMMAND, PIC_CMD_EOI),
    {
        PortWrite { port: self.pics[0].command_port, value: PIC_CMD_EOI }
    }
}

/// Whether the controller starting at `offset` raises `id`.
pub open spec fn handled_by(offset: u8, id: u8) -> bool {
    offset <= id < offset + 8
}

/// The end-of-interrupt writes for `id`.
pub open spec fn eoi_writes(o1: u8, o2: u8, id: u8) -> Seq<PortWrite> {
    if handled_by(o1, id) || handled_by(o2, id) {
        if handled_by(o2, id) {
            seq![pw(PIC2_COMMAND, PIC_CMD_EOI), pw(PIC1_COMMAND, PIC_CMD_EOI)]
        } else {
            seq![pw(PIC1_COMMAND, PIC_CMD_EOI)]
        }
    } else {
        Seq::empty()
    }
}

/// The initialization writes for controllers at offsets `o1` and `o2`.
pub open spec fn init_sequence(o1: u8, o2: u8) -> Seq<PortWrite> {
    let wait = pw(IO_WAIT_PORT, 0);
    seq![
        pw(PIC1_COMMAND, PIC_CMD_INIT), wait,
        pw(PIC2_COMMAND, PIC_CMD_INIT), wait,
        pw(PIC1_DATA, o1), wait,
        pw(PIC2_DATA, o2), wait,
        pw(PIC1_DATA, 4), wait,
        pw(PIC2_DATA, 2), wait,
        pw(PIC1_DATA, 1), wait,
        pw(PIC2_DATA, 1), wait,
        pw(PIC1_DATA, MASK1),
        pw(PIC2_DATA, MASK2),
    ]
}

/// Read ISR values from pics as a u16 bitmap
pub fn read_isr(isr0: u8, isr1: u8) -> (r: u16)
    ensures
        r == isr1 * 0x100 + isr0,
{
    (isr1 as u16) * 0x100 + isr0 as u16
}

} // verus!
