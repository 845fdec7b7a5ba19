//! The RTL8139 network card: its reset sequence, the receive ring, the
//! choice of transmit buffers and the decoding of its interrupt status.

use vstd::prelude::*;
use crate::bytes::{le_u16, read_u16};
use crate::port::IoWrite;

verus! {

pub const TX_BUFFER_COUNT: usize = 4;

/// Register offsets from the I/O base.
pub const REG_MAC: u16 = 0x00;
pub const REG_MAR0: u16 = 0x08;
pub const REG_MAR4: u16 = 0x12;
pub const REG_TXSTATUS0: u16 = 0x10;
pub const REG_TXADDR0: u16 = 0x20;
pub const REG_RXBUF: u16 = 0x30;
pub const REG_COMMAND: u16 = 0x37;
pub const REG_CAPR: u16 = 0x38;
pub const REG_IMR: u16 = 0x3C;
pub const REG_ISR: u16 = 0x3E;
pub const REG_TXCFG: u16 = 0x40;
pub const REG_RXCFG: u16 = 0x44;
pub const REG_MPC: u16 = 0x4C;
pub const REG_CFG9346: u16 = 0x50;
pub const REG_CONFIG1: u16 = 0x52;
pub const REG_MSR: u16 = 0x58;
pub const REG_BMCR: u16 = 0x62;

/// Transmit status: the card is done with the buffer.
pub const TX_STATUS_OWN: u32 = 0x2000;

/// Command register bits.
pub const COMMAND_RX_EMPTY: u8 = 0x01;
pub const COMMAND_TX_ENABLE: u8 = 0x04;
pub const COMMAND_RX_ENABLE: u8 = 0x08;
pub const COMMAND_RESET: u8 = 0x10;

/// Interrupt status flags.
pub const INT_RXOK: u16 = 0x01;
pub const INT_RXERR: u16 = 0x02;
pub const INT_TXOK: u16 = 0x04;
pub const INT_TXERR: u16 = 0x08;
pub const INT_RX_BUFFER_OVERFLOW: u16 = 0x10;
pub const INT_LINK_CHANGE: u16 = 0x20;
pub const INT_RX_FIFO_OVERFLOW: u16 = 0x40;
pub const INT_LENGTH_CHANGE: u16 = 0x2000;
pub const INT_SYSTEM_ERROR: u16 = 0x8000;
/// Every interrupt flag the driver knows.
pub const INT_ALL_SUPPORTED: u16 = 0xA07F;

/// Receive status flags.
pub const RX_MULTICAST: u16 = 0x8000;
pub const RX_PHYSICAL_MATCH: u16 = 0x4000;
pub const RX_BROADCAST: u16 = 0x2000;
pub const RX_INVALID_SYMBOL_ERROR: u16 = 0x20;
pub const RX_RUNT: u16 = 0x10;
pub const RX_LONG: u16 = 0x08;
pub const RX_CRC_ERROR: u16 = 0x04;
pub const RX_FRAME_ALIGNMENT_ERROR: u16 = 0x02;
pub const RX_OK: u16 = 0x01;
/// Every receive status flag that has a name.
pub const RX_ALL: u16 = 0xE03F;
/// The receive status flags that mean the packet is broken.
pub const RX_ALL_ERRORS: u16 = 0x26;

/// Config register lock values.
pub const CFG9346_NONE: u8 = 0x00;
pub const CFG9346_UNLOCK: u8 = 0xC0;

/// Transmit configuration: default retries, 1K DMA bursts, standard gap.
pub const TX_CONFIG: u32 = 0x0300_0600;
/// Receive configuration: physical match, multicast and broadcast, wrap
/// inhibited, unlimited DMA, a 32K buffer, no FIFO threshold.
pub const RX_CONFIG: u32 = 0xF78E;
/// 100 Mbit, auto negotiation, full duplex.
pub const BMCR_OPTIONS: u16 = 0x3100;
/// Receive flow control.
pub const MSR_RX_FLOW_CONTROL_ENABLE: u8 = 0x40;

pub const PACKET_SIZE_MAX: usize = 0x600;
pub const PACKET_SIZE_MIN: usize = 0x16;
pub const RX_BUFFER_SIZE: usize = 32768;
pub const TX_BUFFER_SIZE: usize = PACKET_SIZE_MAX;
/// Frames shorter than this are padded before the card adds its checksum.
pub const MIN_FRAME_LEN: usize = 60;

/// A MAC address.
#[derive(Debug, Clone, Copy, PartialEq, Eq)]
pub struct MacAddr(pub [u8; 6]);

/// The driver's state of the card.
pub struct RTL8139 {
    irq: u8,
    io_base: u16,
    /// Physical address of the receive ring.
    rx_phys: u64,
    /// Physical addresses of the transmit buffers.
    tx_phys: [u64; 4],
    /// Where the next received packet starts in the ring.
    rx_offset: usize,
    /// The transmit buffer to try first.
    tx_next: usize,
    link_up: bool,
}

/// The writes that configure the card once its reset has completed.
pub open spec fn reset_writes(io: u16, rx_phys: u64, tx_phys: [u64; 4]) -> Seq<IoWrite> {
    seq![
        IoWrite::Byte((io + REG_CFG9346) as u16, CFG9346_UNLOCK),
        IoWrite::Byte((io + REG_CONFIG1) as u16, 0),
        IoWrite::Dword((io + REG_MAR0) as u16, 0xffff_ffff),
        IoWrite::Dword((io + REG_MAR4) as u16, 0xffff_ffff),
        IoWrite::Byte((io + REG_COMMAND) as u16, COMMAND_RX_ENABLE | COMMAND_TX_ENABLE),
        IoWrite::Dword((io + REG_RXBUF) as u16, rx_phys as u32),
        IoWrite::Byte((io + REG_MPC) as u16, 0),
        IoWrite::Word((io + REG_BMCR) as u16, BMCR_OPTIONS),
        IoWrite::Byte((io + REG_MSR) as u16, MSR_RX_FLOW_CONTROL_ENABLE),
        IoWrite::Dword((io + REG_RXCFG) as u16, RX_CONFIG),
        IoWrite::Dword((io + REG_TXCFG) as u16, TX_CONFIG),
        IoWrite::Dword((io + REG_TXADDR0) as u16, tx_phys[0] as u32),
        IoWrite::Dword((io + REG_TXADDR0 + 4) as u16, tx_phys[1] as u32),
        IoWrite::Dword((io + REG_TXADDR0 + 8) as u16, tx_phys[2] as u32),
        IoWrite::Dword((io + REG_TXADDR0 + 12) as u16, tx_phys[3] as u32),
        IoWrite::Byte((io + REG_CFG9346) as u16, CFG9346_NONE),
        IoWrite::Byte((io + REG_COMMAND) as u16, COMMAND_RX_ENABLE | COMMAND_TX_ENABLE),
        IoWrite::Word((io + REG_IMR) as u16, INT_ALL_SUPPORTED),
        IoWrite::Word((io + REG_ISR) as u16, 0xffff)
    ]
}

/// Why a received packet could not be taken.
#[derive(Debug, Clone, Copy, PartialEq, Eq, Structural)]
pub enum RxError {
    /// The status lacks the OK flag.
    NotOk,
    /// The length is below the minimum or not below the maximum.
    BadLength,
    /// The status carries an error flag.
    Errors,
}

/// What the receive ring holds at `off`: its status word (the named flags
/// only) and its length word.
pub open spec fn rx_status_at(rx: Seq<u8>, off: int) -> u16 {
    (le_u16(rx, off) as u16) & RX_ALL
}

pub open spec fn rx_length_at(rx: Seq<u8>, off: int) -> u16 {
    le_u16(rx, off + 2) as u16
}

/// Where the packet after one of `length` bytes at `off` starts: past its
/// four header bytes, aligned up to four bytes, within the ring.
pub open spec fn next_rx_offset(off: int, length: int) -> int {
    (((off + length + 4 + 3) as u16) & !3u16) as int % RX_BUFFER_SIZE as int
}

/// The first transmit buffer, counting from `next` round the four, that
/// the card has released.
pub open spec fn first_free_buffer(next: int, statuses: [u32; 4]) -> Option<int> {
    if statuses[next % 4] & TX_STATUS_OWN != 0 {
        Some(next % 4)
    } else if statuses[(next + 1) % 4] & TX_STATUS_OWN != 0 {
        Some((next + 1) % 4)
    } else if statuses[(next + 2) % 4] & TX_STATUS_OWN != 0 {
        Some((next + 2) % 4)
    } else if statuses[(next + 3) % 4] & TX_STATUS_OWN != 0 {
        Some((next + 3) % 4)
    } else {
        None
    }
}

/// What one pass over the interrupt status asks of the driver.
#[derive(Debug, Clone, Copy, PartialEq, Eq, Structural)]
pub enum IrqAction {
    /// No known flag is set: the interrupt is handled.
    Done,
    /// Take a packet from the ring if `receive`; a set flag that the
    /// driver cannot recover from makes `fatal`.
    Handle { receive: bool, fatal: bool },
}

/// What the interrupt status `raw` asks of the driver.
pub fn irq_action(raw: u16) -> (r: IrqAction)
    ensures
        raw & INT_ALL_SUPPORTED == 0 ==> r == IrqAction::Done,
        raw & INT_ALL_SUPPORTED != 0 ==> r == (IrqAction::Handle {
            receive: raw & INT_RXOK != 0,
            fatal: raw & (INT_RXERR | INT_TXERR | INT_LINK_CHANGE | INT_SYSTEM_ERROR) != 0,
        }),
{
    let status = raw & INT_ALL_SUPPORTED;
    if status == 0 {
        return IrqAction::Done;
    }
    assert(status & INT_RXOK == raw & INT_RXOK) by (bit_vector)
        requires
            status == raw & 0xA07F,
    ;
    assert(status & (INT_RXERR | INT_TXERR | INT_LINK_CHANGE | INT_SYSTEM_ERROR) == raw & (INT_RXERR | INT_TXERR | INT_LINK_CHANGE | INT_SYSTEM_ERROR)) by (bit_vector)
        requires
            status == raw & 0xA07F,
    ;
    IrqAction::Handle {
        receive: status & INT_RXOK != 0,
        fatal: status & (INT_RXERR | INT_TXERR | INT_LINK_CHANGE | INT_SYSTEM_ERROR) != 0,
    }
}

/// The stub's bytes: push dx; xor rax, rax; mov dx, port; in ax, dx;
/// out dx, ax; pop dx; ret.
pub open spec fn stub_bytes(isr_port: u16) -> Seq<u8> {
    seq![
        0x66u8, 0x52, 0x48, 0x31, 0xc0, 0x66, 0xba, (isr_port % 0x100) as u8, (isr_port / 0x100) as u8,
        0x66, 0xed, 0x66, 0xef, 0x66, 0x5a, 0xc3
    ]
}

/// The machine code of the interrupt stub that reads the 16-bit status at
/// `isr_port` and writes it back to clear it, returning it in `rax`.
pub fn irq_handler_stub(isr_port: u16) -> (r: [u8; 16])
    ensures
        r@ == stub_bytes(isr_port),
{
    let lo = (isr_port % 0x100) as u8;
    let hi = (isr_port / 0x100) as u8;
    let r: [u8; 16] = [0x66, 0x52, 0x48, 0x31, 0xc0, 0x66, 0xba, lo, hi, 0x66, 0xed, 0x66, 0xef, 0x66, 0x5a, 0xc3];
    assert(r@ =~= seq![
        0x66u8, 0x52, 0x48, 0x31, 0xc0, 0x66, 0xba, lo, hi, 0x66, 0xed, 0x66, 0xef, 0x66, 0x5a, 0xc3
    ]);
    r
}

impl RTL8139 {
    /// The driver keeps its ring offset inside the ring and its next
    /// transmit buffer among the four, and every register address fits.
    pub open spec fn wf(&self) -> bool {
        &&& self.spec_rx_offset() < RX_BUFFER_SIZE
        &&& self.spec_tx_next() < TX_BUFFER_COUNT
        &&& self.spec_io_base() + REG_BMCR <= u16::MAX
    }

    pub closed spec fn spec_irq(&self) -> u8 {
        self.irq
    }

    /// The card's interrupt line.
    pub fn irq(&self) -> (r: u8)
        ensures
            r == self.spec_irq(),
    {
        self.irq
    }

    pub closed spec fn spec_io_base(&self) -> u16 {
        self.io_base
    }

    pub closed spec fn spec_rx_phys(&self) -> u64 {
        self.rx_phys
    }

    pub closed spec fn spec_tx_phys(&self) -> [u64; 4] {
        self.tx_phys
    }

    pub closed spec fn spec_rx_offset(&self) -> usize {
        self.rx_offset
    }

    pub closed spec fn spec_tx_next(&self) -> usize {
        self.tx_next
    }

    pub closed spec fn spec_link_up(&self) -> bool {
        self.link_up
    }

    /// The driver for a card whose I/O base register reads `bar0` and
    /// whose interrupt line is `irq`, with DMA buffers at the given
    /// physical addresses. The card still needs its reset.
    pub fn new(bar0: u32, irq: u8, rx_phys: u64, tx_phys: [u64; 4]) -> (r: RTL8139)
        ensures
            r.spec_io_base() == (bar0 & !1u32) as u16,
            r.spec_irq() == irq,
            r.spec_rx_phys() == rx_phys,
            r.spec_tx_phys() == tx_phys,
            r.spec_rx_offset() == 0,
            r.spec_tx_next() == 0,
            !r.spec_link_up(),
            r.spec_io_base() + REG_BMCR <= u16::MAX ==> r.wf(),
    {
        RTL8139 {
            irq,
            io_base: (bar0 & !1u32) as u16,
            rx_phys,
            tx_phys,
            rx_offset: 0,
            tx_next: 0,
            link_up: false,
        }
    }

    pub fn io_base(&self) -> (r: u16)
        ensures
            r == self.spec_io_base(),
    {
        self.io_base
    }

    /// The write that starts a reset.
    pub fn reset_command(&self) -> (r: IoWrite)
        requires
            self.wf(),
        ensures
            r == IoWrite::Byte((self.spec_io_base() + REG_COMMAND) as u16, COMMAND_RESET),
    {
        IoWrite::Byte(self.io_base + REG_COMMAND, COMMAND_RESET)
    }

    /// Whether the reset is over, from the value of the command register.
    pub fn reset_complete(command: u8) -> (r: bool)
        ensures
            r == (command & COMMAND_RESET == 0),
    {
        command & COMMAND_RESET == 0
    }

    /// After the card has reset: rewinds the ring and the transmit buffers
    /// and gives the writes that configure the card.
    pub fn reset(&mut self) -> (r: Vec<IoWrite>)
        requires
            old(self).wf(),
        ensures
            final(self).wf(),
            final(self).spec_rx_offset() == 0,
            final(self).spec_tx_next() == 0,
            final(self).spec_io_base() == old(self).spec_io_base(),
            final(self).spec_rx_phys() == old(self).spec_rx_phys(),
            final(self).spec_tx_phys() == old(self).spec_tx_phys(),
            final(self).spec_link_up() == old(self).spec_link_up(),
            final(self).spec_irq() == old(self).spec_irq(),
            r@ == reset_writes(old(self).spec_io_base(), old(self).spec_rx_phys(), old(self).spec_tx_phys()),
    {
        self.rx_offset = 0;
        self.tx_next = 0;
        let io = self.io_base;
        let mut w: Vec<IoWrite> = Vec::new();
        w.push(IoWrite::Byte(io + REG_CFG9346, CFG9346_UNLOCK));
        w.push(IoWrite::Byte(io + REG_CONFIG1, 0));
        w.push(IoWrite::Dword(io + REG_MAR0, 0xffff_ffff));
        w.push(IoWrite::Dword(io + REG_MAR4, 0xffff_ffff));
        w.push(IoWrite::Byte(io + REG_COMMAND, COMMAND_RX_ENABLE | COMMAND_TX_ENABLE));
        w.push(IoWrite::Dword(io + REG_RXBUF, self.rx_phys as u32));
        w.push(IoWrite::Byte(io + REG_MPC, 0));
        w.push(IoWrite::Word(io + REG_BMCR, BMCR_OPTIONS));
        w.push(IoWrite::Byte(io + REG_MSR, MSR_RX_FLOW_CONTROL_ENABLE));
        w.push(IoWrite::Dword(io + REG_RXCFG, RX_CONFIG));
        w.push(IoWrite::Dword(io + REG_TXCFG, TX_CONFIG));
        let mut i: u16 = 0;
        while i < 4
            invariant
                i <= 4,
                io == self.spec_io_base(),
                io + REG_BMCR <= u16::MAX,
                w@.len() == 11 + i,
                forall|j: int| 0 <= j < 11 ==> #[trigger] w@[j] == reset_writes(io, self.spec_rx_phys(), self.spec_tx_phys())[j],
                forall|j: int| 11 <= j < 11 + i ==> #[trigger] w@[j] == IoWrite::Dword((io + REG_TXADDR0 + 4 * (j - 11)) as u16, self.spec_tx_phys()[j - 11] as u32),
            decreases 4 - i,
        {
            w.push(IoWrite::Dword(io + REG_TXADDR0 + i * 4, self.tx_phys[i as usize] as u32));
            i = i + 1;
        }
        w.push(IoWrite::Byte(io + REG_CFG9346, CFG9346_NONE));
        w.push(IoWrite::Byte(io + REG_COMMAND, COMMAND_RX_ENABLE | COMMAND_TX_ENABLE));
        w.push(IoWrite::Word(io + REG_IMR, INT_ALL_SUPPORTED));
        w.push(IoWrite::Word(io + REG_ISR, 0xffff));
        proof {
            let e = reset_writes(io, self.spec_rx_phys(), self.spec_tx_phys());
            assert(w@[11] == e[11]);
            assert(w@[12] == e[12]);
            assert(w@[13] == e[13]);
            assert(w@[14] == e[14]);
            assert(w@ =~= e);
        }
        w
    }

    /// Takes the packet at the current ring offset out of the receive ring
    /// `rx`. Nothing when the status word is empty; otherwise the packet,
    /// the write that tells the card how far the driver has read, and the
    /// ring offset moved past the packet; an error when the packet is
    /// broken, which leaves the state as it was.
    pub fn receive(&mut self, rx: &[u8]) -> (r: Result<Option<(Vec<u8>, IoWrite)>, RxError>)
        requires
            old(self).wf(),
            rx@.len() >= RX_BUFFER_SIZE + PACKET_SIZE_MAX,
        ensures
            final(self).wf(),
            final(self).spec_io_base() == old(self).spec_io_base(),
            final(self).spec_rx_phys() == old(self).spec_rx_phys(),
            final(self).spec_tx_phys() == old(self).spec_tx_phys(),
            final(self).spec_tx_next() == old(self).spec_tx_next(),
            final(self).spec_link_up() == old(self).spec_link_up(),
            final(self).spec_irq() == old(self).spec_irq(),
            ({
                let off = old(self).spec_rx_offset() as int;
                let status = rx_status_at(rx@, off);
                let length = rx_length_at(rx@, off);
                if status == 0 {
                    r == Ok::<Option<(Vec<u8>, IoWrite)>, RxError>(None) && final(self).spec_rx_offset() == old(self).spec_rx_offset()
                } else if status & RX_OK == 0 {
                    r == Err::<Option<(Vec<u8>, IoWrite)>, RxError>(RxError::NotOk) && final(self).spec_rx_offset() == old(self).spec_rx_offset()
                } else if length < PACKET_SIZE_MIN || length >= PACKET_SIZE_MAX {
                    r == Err::<Option<(Vec<u8>, IoWrite)>, RxError>(RxError::BadLength) && final(self).spec_rx_offset() == old(self).spec_rx_offset()
                } else if status & RX_ALL_ERRORS != 0 {
                    r == Err::<Option<(Vec<u8>, IoWrite)>, RxError>(RxError::Errors) && final(self).spec_rx_offset() == old(self).spec_rx_offset()
                } else {
                    &&& r matches Ok(Some((packet, capr)))
                    &&& packet@ == rx@.subrange(off + 4, off + length)
                    &&& capr == IoWrite::Word(
                        (old(self).spec_io_base() + REG_CAPR) as u16,
                        (off as u16).wrapping_sub(0x10),
                    )
                    &&& final(self).spec_rx_offset() == next_rx_offset(off, length as int)
                }
            }),
    {
        let off = self.rx_offset;
        let status_bits = read_u16(rx, off);
        let length = read_u16(rx, off + 2);
        let status = status_bits & RX_ALL;
        if status == 0 {
            return Ok(None);
        }
        if status & RX_OK == 0 {
            return Err(RxError::NotOk);
        }
        if (length as usize) < PACKET_SIZE_MIN || (length as usize) >= PACKET_SIZE_MAX {
            return Err(RxError::BadLength);
        }
        if status & RX_ALL_ERRORS != 0 {
            return Err(RxError::Errors);
        }
        let packet_len = (length - 4) as usize;
        let _len = rx.len();
        let mut packet: Vec<u8> = Vec::new();
        let mut i: usize = 0;
        while i < packet_len
            invariant
                i <= packet_len,
                off + 4 + packet_len <= rx@.len(),
                rx@.len() <= usize::MAX,
                packet@ == rx@.subrange(off + 4, off + 4 + i),
            decreases packet_len - i,
        {
            packet.push(rx[off + 4 + i]);
            i = i + 1;
            proof {
                assert(packet@ =~= rx@.subrange(off + 4, off + 4 + i));
            }
        }
        let nic_rx_offset = (((off as u16) + length + 4 + 3) & !3u16) % (RX_BUFFER_SIZE as u16);
        let capr = IoWrite::Word(self.io_base + REG_CAPR, (off as u16).wrapping_sub(0x10));
        self.rx_offset = (nic_rx_offset % (RX_BUFFER_SIZE as u16)) as usize;
        proof {
            assert(nic_rx_offset < 32768);
        }
        Ok(Some((packet, capr)))
    }

    /// Select next tx buffer, distributing packets evently: the first,
    /// counting from the next one round the four, whose transmit status
    /// in `statuses` shows the card has released it.
    pub fn select_buffer(&self, statuses: [u32; 4]) -> (r: Option<usize>)
        requires
            self.wf(),
        ensures
            match first_free_buffer(self.spec_tx_next() as int, statuses) {
                Some(b) => r == Some(b as usize),
                None => r is None,
            },
    {
        let mut i: usize = 0;
        while i < TX_BUFFER_COUNT
            invariant
                i <= 4,
                self.wf(),
                i >= 1 ==> statuses[(self.spec_tx_next() as int) % 4] & TX_STATUS_OWN == 0,
                i >= 2 ==> statuses[(self.spec_tx_next() + 1) % 4] & TX_STATUS_OWN == 0,
                i >= 3 ==> statuses[(self.spec_tx_next() + 2) % 4] & TX_STATUS_OWN == 0,
                i >= 4 ==> statuses[(self.spec_tx_next() + 3) % 4] & TX_STATUS_OWN == 0,
            decreases 4 - i,
        {
            let potential_buffer = (self.tx_next + i) % 4;
            if statuses[potential_buffer] & TX_STATUS_OWN != 0 {
                return Some(potential_buffer);
            }
            i = i + 1;
        }
        None
    }

    /// Sends `packet` through the first released transmit buffer: the
    /// buffer's new contents (the packet, zero-padded to the buffer size)
    /// and the write of its length, at least the minimum frame, that starts
    /// the transmission. `None` when every buffer is busy.
    pub fn send(&mut self, packet: &[u8], statuses: [u32; 4]) -> (r: Option<(usize, Vec<u8>, IoWrite)>)
        requires
            old(self).wf(),
            packet@.len() <= PACKET_SIZE_MAX,
        ensures
            final(self).wf(),
            final(self).spec_io_base() == old(self).spec_io_base(),
            final(self).spec_rx_phys() == old(self).spec_rx_phys(),
            final(self).spec_tx_phys() == old(self).spec_tx_phys(),
            final(self).spec_rx_offset() == old(self).spec_rx_offset(),
            final(self).spec_link_up() == old(self).spec_link_up(),
            final(self).spec_irq() == old(self).spec_irq(),
            match first_free_buffer(old(self).spec_tx_next() as int, statuses) {
                Some(b) => r matches Some((index, contents, start)) && index == b
                    && final(self).spec_tx_next() == (b + 1) % 4
                    && contents@ == packet@ + Seq::new((TX_BUFFER_SIZE - packet@.len()) as nat, |i: int| 0u8)
                    && start == IoWrite::Dword(
                        (old(self).spec_io_base() + REG_TXSTATUS0 + 4 * b) as u16,
                        (if packet@.len() > MIN_FRAME_LEN { packet@.len() as int } else { MIN_FRAME_LEN as int }) as u32,
                    ),
                None => r is None && final(self).spec_tx_next() == old(self).spec_tx_next(),
            },
    {
        let buffer_index = match self.select_buffer(statuses) {
            Some(b) => b,
            None => return None,
        };
        self.tx_next = (buffer_index + 1) % 4;
        let mut contents: Vec<u8> = Vec::new();
        let mut i: usize = 0;
        while i < TX_BUFFER_SIZE
            invariant
                i <= TX_BUFFER_SIZE,
                packet@.len() <= TX_BUFFER_SIZE,
                contents@.len() == i,
                forall|j: int| 0 <= j < i && j < packet@.len() ==> contents@[j] == packet@[j],
                forall|j: int| packet@.len() <= j < i ==> contents@[j] == 0,
            decreases TX_BUFFER_SIZE - i,
        {
            if i < packet.len() {
                contents.push(packet[i]);
            } else {
                contents.push(0);
            }
            i = i + 1;
        }
        proof {
            assert(contents@ =~= packet@ + Seq::new((TX_BUFFER_SIZE - packet@.len()) as nat, |i: int| 0u8));
        }
        let len = if packet.len() > MIN_FRAME_LEN { packet.len() } else { MIN_FRAME_LEN };
        let start = IoWrite::Dword(self.io_base + REG_TXSTATUS0 + (buffer_index as u16) * 4, len as u32);
        Some((buffer_index, contents, start))
    }

    /// The MAC address from the six bytes of the MAC registers.
    pub fn mac_addr(bytes: [u8; 6]) -> (r: MacAddr)
        ensures
            r.0 == bytes,
    {
        MacAddr(bytes)
    }
}

} // verus!
