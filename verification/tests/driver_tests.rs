use d7os::bytes::{read_u16, read_u32, read_u64, write_u16, write_u32, write_u64};
use d7os::keyboard::{can_read, can_write, is_supported_subtype, test_result, without_translation, Keyboard};
use d7os::nic::{mac_addr_string, NetworkController, Packet, NIC};
use d7os::filesystem::types::{ExplicitEventId, WaitFor};
use d7os::pic::{ChainedPics, PIC1_COMMAND, PIC2_COMMAND, PIC_CMD_EOI};
use d7os::pit::{disable, ElapsedTicks, CMD_ONE_SHOT, PIT_CH0, PIT_REG};
use d7os::port::{IoWrite, PortWrite};
use d7os::rtl8139::{irq_action, irq_handler_stub, IrqAction, RxError, RTL8139, COMMAND_RESET};
use d7os::uart::{finish_init_serial, init_serial, is_transmit_empty, TEST_BYTE};
use d7os::vga_buffer::{printc, CellColor, Color, Terminal};
use d7os::vga_console::{self, Cursor};
use d7os::virtio::block::{poll_status, BlockDevice, BlockRequest, DiskController, ReadPoll, VirtioBlock};
use d7os::virtio::virtq::{BufferFlags, VirtQueue, VirtQueueDesc};
use d7os::pci::{Device, DeviceClass, DeviceLocation, PCIController};
use d7os::virtio::{find_pci_device, FeatureBits, BringUpError, CapabilityInfo, CapabilityType, DeviceType, ConfigWrite, DeviceStatus, VirtioDevice, CFG_DEVICE_STATUS, CFG_QUEUE_ENABLE, CFG_QUEUE_SELECT};

// ---- bytes ----

#[test]
fn law_bytes_write_then_read() {
    let mut b = vec![0u8; 16];
    write_u16(&mut b, 0, 0xBEEF);
    write_u32(&mut b, 2, 0xDEAD_BEEF);
    write_u64(&mut b, 8, 0x0102_0304_0506_0708);
    assert_eq!(read_u16(&b, 0), 0xBEEF);
    assert_eq!(read_u32(&b, 2), 0xDEAD_BEEF);
    assert_eq!(read_u64(&b, 8), 0x0102_0304_0506_0708);
    assert_eq!(b[8], 0x08);
    assert_eq!(b[15], 0x01);
}

// ---- VGA text terminal ----

#[test]
fn law_cell_color_parts_and_inversion() {
    let c = CellColor::new(Color::Yellow, Color::Blue);
    assert_eq!(c.foreground(), Color::Yellow);
    assert_eq!(c.background(), Color::Blue);
    let i = c.invert();
    assert_eq!(i.foreground(), Color::Blue);
    assert_eq!(i.background(), Color::Yellow);
    assert_eq!(i.invert().0, c.0);
    assert_eq!(c.0, 0x1e);
}

#[test]
fn terminal_writes_and_wraps() {
    let mut t = Terminal::new();
    t.write_str("ab\nc");
    assert_eq!(t.cell(0, 0).character, b'a');
    assert_eq!(t.cell(0, 1).character, b'b');
    assert_eq!(t.cell(1, 0).character, b'c');
    assert_eq!(t.cursor_position(), (1, 1));
    t.write_byte(0x08, CellColor(0x0f));
    assert_eq!(t.cursor_position(), (1, 0));
    assert_eq!(t.cell(1, 0).character, b' ');
}

#[test]
fn terminal_scrolls_on_last_row() {
    let mut t = Terminal::new();
    t.write_str("top");
    for _ in 0..25 {
        t.newline();
    }
    assert_eq!(t.cursor_position(), (24, 0));
    assert_eq!(t.cell(0, 0).character, b' ');
}

#[test]
fn printc_uses_the_color() {
    let mut t = Terminal::new();
    let red = CellColor::new(Color::Red, Color::Black);
    printc(&mut t, "x", red);
    assert_eq!(t.cell(0, 0).color.0, red.0);
}

// ---- console with a current color ----

#[test]
fn console_clear_uses_the_output_color() {
    let mut t = vga_console::Terminal::new();
    let blue = CellColor::new(Color::White, Color::Blue);
    t.set_color(blue);
    vga_console::print(&mut t, "hi");
    t.clear();
    assert_eq!(t.cursor_position(), (0, 0));
    assert_eq!(t.cell(0, 0).character, b' ');
    assert_eq!(t.cell(0, 0).color.0, 0x1f);
    assert_eq!(t.cell(24, 79).color.0, 0x1f);
}

#[test]
fn console_printc_restores_the_color() {
    let mut t = vga_console::Terminal::new();
    let red = CellColor::new(Color::Red, Color::Black);
    vga_console::printc(&mut t, "x\n", red);
    assert_eq!(t.cell(0, 0).character, b'x');
    assert_eq!(t.cell(0, 0).color.0, 0x04);
    assert_eq!(t.get_color().0, 0x0f);
    assert_eq!(t.cursor_position(), (1, 0));
}

#[test]
fn console_wraps_at_line_end_and_scrolls() {
    let mut t = vga_console::Terminal::new();
    let line: Vec<u8> = vec![b'a'; 80];
    t.write_bytes(&line);
    assert_eq!(t.cursor_position(), (1, 0));
    vga_console::print(&mut t, "z");
    for _ in 0..24 {
        t.newline();
    }
    assert_eq!(t.cursor_position(), (24, 0));
    assert_eq!(t.cell(0, 0).character, b'z');
    assert_eq!(t.cell(24, 0).character, b' ');
}

#[test]
fn console_backspace_goes_to_previous_row() {
    let mut t = vga_console::Terminal::new();
    vga_console::print(&mut t, "a\n");
    t.backspace();
    assert_eq!(t.cursor_position(), (0, 79));
    t.reset();
    assert_eq!(t.cursor_position(), (0, 0));
    assert_eq!(t.cell(0, 0).character, b' ');
}

#[test]
fn console_cursor_moves() {
    let mut c = Cursor { row: 0, col: 79 };
    c.next();
    assert_eq!(c.position(), (0, 80));
    c.next();
    assert_eq!(c.position(), (0, 80));
    assert!(!c.newline());
    assert_eq!(c.position(), (1, 0));
    c.prev(false);
    assert_eq!(c.position(), (1, 0));
    c.prev(true);
    assert_eq!(c.position(), (0, 79));
    c.set_position(24, 3);
    assert!(c.newline());
    assert_eq!(c.position(), (24, 0));
}

// ---- VirtIO ----

#[test]
fn law_virtqueue_descriptor_roundtrip() {
    let mut q = VirtQueue::new(8, 0x10000);
    let mut d = VirtQueueDesc::new_read(0x1234, 16);
    d.chain(3);
    q.set_desc_at(2, d);
    let back = q.desc_at(2);
    assert_eq!(back.address, 0x1234);
    assert_eq!(back.length, 16);
    assert_eq!(back.flags.bits, BufferFlags::NEXT);
    assert_eq!(back.next, 3);
    assert_eq!(q.find_free_n(2), Some(vec![0, 1]));
    assert_eq!(q.find_free(), Some(0));
}

#[test]
fn virtio_block_submits_a_chained_read() {
    let device = VirtioDevice::try_new(Vec::new());
    let mut blk = VirtioBlock { device, queues: vec![VirtQueue::new(4, 0x20000)] };
    let r = blk.submit_read(0x5000);
    assert_eq!(r, Some((0, 1)));
    let q = &blk.queues[0];
    let d0 = q.desc_at(0);
    let d1 = q.desc_at(1);
    assert_eq!((d0.address, d0.length, d0.flags.bits, d0.next), (0x5000, 16, BufferFlags::NEXT, 1));
    assert_eq!((d1.address, d1.length, d1.flags.bits), (0x5010, 513, BufferFlags::WRITE));
    assert_eq!(q.available_header().index, 1);
    assert_eq!(blk.submit_read(0x6000), Some((2, 3)));
    assert_eq!(blk.queues[0].available_header().index, 2);
    assert_eq!(blk.submit_read(0x7000), None);
}

#[test]
fn block_requests_and_status() {
    let r = BlockRequest::new_read(7);
    assert_eq!((r.type_, r.sector, r.status), (0, 7, 0xff));
    assert_eq!(BlockRequest::new_write(3).type_, 1);
    assert_eq!(BlockRequest::new_flush().type_, 4);
    assert_eq!(r.data_vec().len(), 512);
    assert_eq!(poll_status(0xff), ReadPoll::Pending);
    assert_eq!(poll_status(0), ReadPoll::Done);
    assert_eq!(poll_status(1), ReadPoll::Failed(1));
}

#[test]
fn virtio_device_register_writes() {
    let device = VirtioDevice::try_new(Vec::new());
    assert_eq!(
        device.set_status(DeviceStatus { bits: DeviceStatus::STATE_READY }),
        ConfigWrite { offset: CFG_DEVICE_STATUS, value: 0x0f, width: 1 }
    );
    assert_eq!(device.get_status(0xff).bits, DeviceStatus::ALL);
    let (queues, writes) = device.init_queues(&vec![8, 4, 0, 16], &vec![0x1000, 0x3000, 0x5000]);
    assert_eq!(queues.len(), 2);
    assert_eq!(writes.len(), 10);
    assert_eq!(writes[0], ConfigWrite { offset: CFG_QUEUE_SELECT, value: 0, width: 2 });
    assert_eq!(writes[4], ConfigWrite { offset: CFG_QUEUE_ENABLE, value: 1, width: 2 });
    assert_eq!(writes[5], ConfigWrite { offset: CFG_QUEUE_SELECT, value: 1, width: 2 });
    assert_eq!(writes[6].value, 0x3000);
    assert_eq!(writes[7].value, 0x3000 + 64);
}

// ---- RTL8139 ----

#[test]
fn rtl8139_reset_sequence() {
    let mut nic = RTL8139::new(0xC001, 11, 0x10_0000, [0x20_0000, 0x21_0000, 0x22_0000, 0x23_0000]);
    assert_eq!(nic.io_base(), 0xC000);
    assert_eq!(nic.irq(), 11);
    assert_eq!(nic.reset_command(), IoWrite::Byte(0xC037, COMMAND_RESET));
    assert!(!RTL8139::reset_complete(0x10));
    assert!(RTL8139::reset_complete(0x0C));
    let w = nic.reset();
    assert_eq!(w.len(), 19);
    assert_eq!(w[0], IoWrite::Byte(0xC050, 0xC0));
    assert_eq!(w[5], IoWrite::Dword(0xC030, 0x10_0000));
    assert_eq!(w[14], IoWrite::Dword(0xC02C, 0x23_0000));
    assert_eq!(w[18], IoWrite::Word(0xC03E, 0xffff));
}

fn ring_with_packet(off: usize, status: u16, length: u16) -> Vec<u8> {
    let mut rx = vec![0u8; 32768 + 0x600];
    rx[off] = (status & 0xff) as u8;
    rx[off + 1] = (status >> 8) as u8;
    rx[off + 2] = (length & 0xff) as u8;
    rx[off + 3] = (length >> 8) as u8;
    for i in 0..(length as usize) {
        rx[off + 4 + i] = i as u8;
    }
    rx
}

#[test]
fn law_rx_offset_aligned_after_receive() {
    let mut nic = RTL8139::new(0xC000, 11, 0, [0; 4]);
    let rx = ring_with_packet(0, 0x0001, 0x40);
    match nic.receive(&rx) {
        Ok(Some((packet, capr))) => {
            assert_eq!(packet.len(), 0x3c);
            assert_eq!(packet[0], 0);
            assert_eq!(packet[5], 5);
            assert_eq!(capr, IoWrite::Word(0xC038, 0xfff0));
        },
        _ => panic!("expected a packet"),
    }
    let rx2 = ring_with_packet(0x44, 0x0001, 0x17);
    match nic.receive(&rx2) {
        Ok(Some((packet, _))) => assert_eq!(packet.len(), 0x13),
        _ => panic!("expected a packet at the new offset"),
    }
}

#[test]
fn rtl8139_receive_errors() {
    let mut nic = RTL8139::new(0xC000, 11, 0, [0; 4]);
    assert_eq!(nic.receive(&ring_with_packet(0, 0, 0x40)), Ok(None));
    assert_eq!(nic.receive(&ring_with_packet(0, 0x2000, 0x40)), Err(RxError::NotOk));
    assert_eq!(nic.receive(&ring_with_packet(0, 0x0001, 0x10)), Err(RxError::BadLength));
    assert_eq!(nic.receive(&ring_with_packet(0, 0x0005, 0x40)), Err(RxError::Errors));
}

#[test]
fn rtl8139_send_pads_and_rotates() {
    let mut nic = RTL8139::new(0xC000, 11, 0, [0; 4]);
    let busy = [0u32; 4];
    assert_eq!(nic.send(&[1, 2, 3], busy), None);
    let free = [0x2000u32; 4];
    let (index, contents, start) = nic.send(&[1, 2, 3], free).unwrap();
    assert_eq!(index, 0);
    assert_eq!(contents.len(), 0x600);
    assert_eq!(&contents[..4], &[1, 2, 3, 0]);
    assert_eq!(start, IoWrite::Dword(0xC010, 60));
    assert_eq!(nic.select_buffer([0, 0, 0x2000, 0]), Some(2));
    let big = vec![7u8; 100];
    let (index2, _, start2) = nic.send(&big, free).unwrap();
    assert_eq!(index2, 1);
    assert_eq!(start2, IoWrite::Dword(0xC014, 100));
}

#[test]
fn rtl8139_interrupt_decisions() {
    assert_eq!(irq_action(0), IrqAction::Done);
    assert_eq!(irq_action(0x0100), IrqAction::Done);
    assert_eq!(irq_action(0x0005), IrqAction::Handle { receive: true, fatal: false });
    assert_eq!(irq_action(0x0002), IrqAction::Handle { receive: false, fatal: true });
    let stub = irq_handler_stub(0xC03E);
    assert_eq!(stub[7], 0x3E);
    assert_eq!(stub[8], 0xC0);
    assert_eq!(stub[15], 0xC3);
}

#[test]
fn mac_address_text() {
    assert_eq!(mac_addr_string([0x52, 0x54, 0x00, 0x12, 0x34, 0xab]), "52:54:00:12:34:ab");
    assert_eq!(RTL8139::mac_addr([1, 2, 3, 4, 5, 6]).0, [1, 2, 3, 4, 5, 6]);
}

// ---- keyboard, PIC, PIT, UART ----

#[test]
fn keyboard_decisions() {
    assert!(can_read(0x01));
    assert!(!can_read(0x02));
    assert!(can_write(0x01));
    assert!(!can_write(0x02));
    assert!(is_supported_subtype(0x83));
    assert!(!is_supported_subtype(0x84));
    assert_eq!(without_translation(0xff), 0xbf);
    assert!(test_result(&vec![0x00, 0xFA], 0xFA));
    assert!(!test_result(&vec![0x00], 0xFA));
    let mut k = Keyboard::new();
    assert!(!k.is_key_byte(0x1c));
    k.set_enabled();
    assert!(k.is_key_byte(0x1c));
    assert!(!k.is_key_byte(0xFA));
}

#[test]
fn pic_end_of_interrupt() {
    let pics = ChainedPics::new(0x20, 0x28);
    assert!(pics.handles_interrupt(0x21));
    assert!(!pics.handles_interrupt(0x30));
    assert_eq!(pics.notify_eoi(0x21), vec![PortWrite { port: PIC1_COMMAND, value: PIC_CMD_EOI }]);
    assert_eq!(
        pics.notify_eoi(0x29),
        vec![PortWrite { port: PIC2_COMMAND, value: PIC_CMD_EOI }, PortWrite { port: PIC1_COMMAND, value: PIC_CMD_EOI }]
    );
    assert!(pics.notify_eoi(0x40).is_empty());
}

#[test]
fn pit_disable_and_ticks() {
    assert_eq!(
        disable(),
        vec![
            PortWrite { port: PIT_REG, value: CMD_ONE_SHOT },
            PortWrite { port: PIT_CH0, value: 0 },
            PortWrite { port: PIT_CH0, value: 0 }
        ]
    );
    let mut t = ElapsedTicks::new();
    t.callback();
    t.callback();
    assert_eq!(t.get(), 2);
    t.reset();
    assert_eq!(t.get(), 0);
}

#[test]
fn uart_setup() {
    let w = init_serial(0x3f8);
    assert_eq!(w.len(), 9);
    assert_eq!(w[8], PortWrite { port: 0x3f8, value: TEST_BYTE });
    assert_eq!(finish_init_serial(0x3f8, TEST_BYTE), Some(PortWrite { port: 0x3fc, value: 0x0f }));
    assert_eq!(finish_init_serial(0x3f8, 0), None);
    assert!(is_transmit_empty(0x20));
    assert!(!is_transmit_empty(0x00));
}

/// A disk of 4 sectors of 2 bytes; sector `n` holds `n` twice.
struct SmallDisk {
    init_ok: bool,
}

impl BlockDevice for SmallDisk {
    fn init(&mut self) -> bool {
        self.init_ok
    }

    fn sector_size(&self) -> u64 {
        2
    }

    fn capacity_sectors(&mut self) -> u64 {
        4
    }

    fn read(&mut self, sector: u64) -> Vec<u8> {
        vec![sector as u8, sector as u8]
    }

    fn write(&mut self, _sector: u64, _data: Vec<u8>) {}
}

#[test]
fn disk_controller_installs_and_reads() {
    let mut dc: DiskController<SmallDisk> = DiskController::new();
    assert!(!dc.init(None));
    assert!(dc.driver.is_none());
    assert!(!dc.init(Some(SmallDisk { init_ok: false })));
    assert!(dc.driver.is_none());
    assert!(dc.init(Some(SmallDisk { init_ok: true })));
    assert_eq!(dc.read(1, 3), vec![vec![1, 1], vec![2, 2], vec![3, 3]]);
    assert!(dc.read(2, 0).is_empty());
}

/// A card that hands over two packets on each interrupt.
struct TwoPacketNic;

impl NIC for TwoPacketNic {
    fn init(&mut self) -> bool {
        true
    }

    fn send(&mut self, _packet: &[u8]) {}

    fn notify_irq(&mut self) -> Vec<Packet> {
        vec![Packet(vec![1, 2]), Packet(vec![3])]
    }

    fn mac_addr(&self) -> [u8; 6] {
        [0x52, 0x54, 0, 0x12, 0x34, 0x56]
    }
}

#[test]
fn network_controller_queues_packets() {
    let mut nw: NetworkController<TwoPacketNic> = NetworkController::new();
    assert!(nw.notify_irq(5).is_empty());
    assert_eq!(nw.received_queue.len(), 0);
    assert!(nw.init(None));
    assert!(nw.init(Some(TwoPacketNic)));
    // A reader sleeps on event 9 until a packet comes.
    assert_eq!(nw.received_queue.wait_for(ExplicitEventId(9)), WaitFor::Event(ExplicitEventId(9)));
    assert_eq!(nw.notify_irq(77), vec![ExplicitEventId(9)]);
    assert_eq!(nw.received_queue.len(), 2);
    let first = nw.received_queue.pop_event().unwrap();
    assert_eq!(first.packet, vec![1, 2]);
    assert_eq!(first.timestamp, 77);
    let second = nw.received_queue.pop_event().unwrap();
    assert_eq!(second.packet, vec![3]);
    assert!(nw.notify_irq(78).is_empty());
    assert_eq!(nw.received_queue.len(), 2);
    assert_eq!(nw.driver.as_ref().unwrap().mac_addr_string(), "52:54:00:12:34:56");
}

#[test]
fn console_printing_in_parts_is_printing_whole() {
    let mut parts = vga_console::Terminal::new();
    let mut whole = vga_console::Terminal::new();
    let text = "ab\ncd\u{8}e";
    vga_console::print(&mut parts, "ab\nc");
    vga_console::print(&mut parts, "d\u{8}e");
    vga_console::print(&mut whole, text);
    assert_eq!(parts.cursor_position(), whole.cursor_position());
    for row in 0..3 {
        for col in 0..5 {
            assert_eq!(parts.cell(row, col).character, whole.cell(row, col).character);
        }
    }
    assert_eq!(whole.cell(1, 1).character, b'e');
}

fn pci_device(vendor: u16, id: u16, slot: u8) -> Device {
    Device { id, vendor, location: DeviceLocation(0, slot, 0), class: DeviceClass(1, 0, 0) }
}

#[test]
fn virtio_device_is_the_first_match() {
    let mut pci = PCIController::new();
    pci.init(vec![
        pci_device(0x8086, 0x1237, 0),
        pci_device(0x1af4, 0x1000, 1),
        pci_device(0x1af4, 0x1001, 2),
        pci_device(0x1af4, 0x1001, 3),
    ]);
    // Slot 1 is a network card, slots 2 and 3 block devices.
    let subsystem = |d: Device| if d.location.1 == 1 { 1u16 } else { 2u16 };
    let found = find_pci_device(&pci, DeviceType::BlockDevice, subsystem).unwrap();
    assert_eq!(found.location.1, 2);
    let net = find_pci_device(&pci, DeviceType::NetworkCard, subsystem).unwrap();
    assert_eq!(net.location.1, 1);
    assert!(find_pci_device(&pci, DeviceType::Console, subsystem).is_none());
}

fn capability(cfg_type: u8, offset: u32) -> CapabilityInfo {
    CapabilityInfo { pci_cfg_addr: 0x40 + cfg_type * 0x10, cfg_type, bar: 4, offset, length: 0x1000 }
}

#[test]
fn virtio_bring_up_resets_and_reads_notify_offsets() {
    let mut pci = PCIController::new();
    pci.init(vec![pci_device(0x8086, 0x1237, 0), pci_device(0x1af4, 0x1001, 3)]);
    let writes = std::cell::RefCell::new(Vec::new());
    let caps = |_d: Device| vec![capability(1, 0), capability(3, 0x1000), capability(4, 0x2000), capability(2, 0x3000)];
    let multiplier_of = |c: CapabilityInfo| if c.cfg_type == 2 { 4u32 } else { 99u32 };
    let sizes = |i: u16| if i < 2 { 256u16 } else { 0u16 };
    let offsets = |i: u16| i + 7;
    let (dev_found, dev) = VirtioDevice::bring_up(
        &pci,
        DeviceType::BlockDevice,
        |_d: Device| 2u16,
        caps,
        &|w: ConfigWrite| writes.borrow_mut().push(w),
        multiplier_of,
        sizes,
        offsets,
    )
    .unwrap()
    .unwrap();
    assert_eq!(dev_found.location.1, 3);
    assert_eq!(dev.capabilities.len(), 4);
    assert_eq!(dev.notify_multiplier, 4);
    assert_eq!(dev.notify_offsets, vec![7u16, 8]);
    assert_eq!(*writes.borrow(), vec![ConfigWrite { offset: CFG_DEVICE_STATUS, value: 0, width: 1 }]);
    assert_eq!(dev.notify_addr(0x1000, 1), 0x1000 + 4 * 8);
}

#[test]
fn virtio_bring_up_stops_at_sixteen_queues() {
    let mut pci = PCIController::new();
    pci.init(vec![pci_device(0x1af4, 0x1000, 0)]);
    let caps = |_d: Device| vec![capability(1, 0), capability(2, 0x3000), capability(3, 0x1000), capability(4, 0x2000)];
    let (_, dev) = VirtioDevice::bring_up(
        &pci,
        DeviceType::NetworkCard,
        |_d: Device| 1u16,
        caps,
        &|_w: ConfigWrite| {},
        |_c: CapabilityInfo| 2u32,
        |_i: u16| 64u16,
        |i: u16| i,
    )
    .unwrap()
    .unwrap();
    assert_eq!(dev.notify_offsets.len(), 16);
    assert_eq!(dev.notify_offsets[15], 15);
}

#[test]
fn virtio_bring_up_finds_nothing() {
    let mut pci = PCIController::new();
    pci.init(vec![pci_device(0x1af4, 0x1000, 1), pci_device(0x10ec, 0x8139, 2)]);
    let writes = std::cell::RefCell::new(Vec::new());
    let r = VirtioDevice::bring_up(
        &pci,
        DeviceType::BlockDevice,
        |_d: Device| 1u16,
        |_d: Device| vec![capability(2, 0)],
        &|w: ConfigWrite| writes.borrow_mut().push(w),
        |_c: CapabilityInfo| 2u32,
        |_i: u16| 64u16,
        |i: u16| i,
    );
    assert!(matches!(r, Ok(None)));
    assert!(writes.borrow().is_empty());
}

#[test]
fn virtio_bring_up_needs_every_configuration() {
    let mut pci = PCIController::new();
    pci.init(vec![pci_device(0x1af4, 0x1001, 1)]);
    let writes = std::cell::RefCell::new(Vec::new());
    let r = VirtioDevice::bring_up(
        &pci,
        DeviceType::BlockDevice,
        |_d: Device| 2u16,
        |_d: Device| vec![capability(1, 0), capability(2, 0x3000), capability(4, 0x2000)],
        &|w: ConfigWrite| writes.borrow_mut().push(w),
        |_c: CapabilityInfo| 2u32,
        |_i: u16| 64u16,
        |i: u16| i,
    );
    assert!(matches!(r, Err(BringUpError::MissingCapability(CapabilityType::Isr))));
    assert!(writes.borrow().is_empty());
    let r = VirtioDevice::bring_up(
        &pci,
        DeviceType::BlockDevice,
        |_d: Device| 2u16,
        |_d: Device| vec![capability(4, 0x2000), capability(3, 0x1000)],
        &|w: ConfigWrite| writes.borrow_mut().push(w),
        |_c: CapabilityInfo| 2u32,
        |_i: u16| 64u16,
        |i: u16| i,
    );
    assert!(matches!(r, Err(BringUpError::MissingCapability(CapabilityType::Common))));
}

#[test]
fn virtio_block_try_new_acknowledges_the_device() {
    let mut pci = PCIController::new();
    pci.init(vec![pci_device(0x1af4, 0x1000, 1), pci_device(0x1af4, 0x1001, 2)]);
    let writes = std::cell::RefCell::new(Vec::new());
    let blk = VirtioBlock::try_new(
        &pci,
        |d: Device| if d.location.1 == 2 { 2u16 } else { 1u16 },
        |_d: Device| vec![capability(1, 0), capability(2, 0x3000), capability(3, 0x1000), capability(4, 0x2000)],
        |w: ConfigWrite| writes.borrow_mut().push(w),
        |_c: CapabilityInfo| 4u32,
        |i: u16| if i == 0 { 128u16 } else { 0u16 },
        |_i: u16| 3u16,
    )
    .unwrap()
    .unwrap();
    assert!(blk.queues.is_empty());
    assert_eq!(blk.device.notify_offsets, vec![3u16]);
    assert_eq!(
        *writes.borrow(),
        vec![
            ConfigWrite { offset: CFG_DEVICE_STATUS, value: 0, width: 1 },
            ConfigWrite { offset: CFG_DEVICE_STATUS, value: DeviceStatus::ACKNOWLEDGE as u64, width: 1 },
        ]
    );
    let none = VirtioBlock::try_new(
        &pci,
        |_d: Device| 1u16,
        |_d: Device| Vec::new(),
        |_w: ConfigWrite| {},
        |_c: CapabilityInfo| 4u32,
        |_i: u16| 0u16,
        |_i: u16| 0u16,
    );
    assert!(matches!(none, Ok(None)));
}

#[test]
fn virtio_feature_negotiation_writes() {
    let dev = VirtioDevice::try_new(vec![]);
    let plan = dev.feature_writes(FeatureBits::new([0x3000_0000, 1])).unwrap();
    assert_eq!(
        plan,
        vec![
            ConfigWrite { offset: 0x08, value: 0, width: 4 },
            ConfigWrite { offset: 0x0c, value: 0x3000_0000, width: 4 },
            ConfigWrite { offset: 0x08, value: 1, width: 4 },
            ConfigWrite { offset: 0x0c, value: 1, width: 4 },
            ConfigWrite { offset: CFG_DEVICE_STATUS, value: 0b1111, width: 1 },
        ]
    );
    // Word 0 must have a bit other than bit 0, word 1 one other than bit 1.
    assert!(dev.feature_writes(FeatureBits::new([1, 1])).is_none());
    assert!(dev.feature_writes(FeatureBits::new([0x3000_0000, 2])).is_none());
    let writes = std::cell::RefCell::new(Vec::new());
    let accepted = dev.set_features(FeatureBits::new([0x3000_0000, 1]), &|w: ConfigWrite| writes.borrow_mut().push(w), &|| 0x0fu8);
    assert!(accepted);
    assert_eq!(*writes.borrow(), plan);
    let refused = dev.set_features(FeatureBits::new([0x3000_0000, 1]), &|_w: ConfigWrite| {}, &|| 0x07u8);
    assert!(!refused);
    writes.borrow_mut().clear();
    let unsupported = dev.set_features(FeatureBits::new([1, 1]), &|w: ConfigWrite| writes.borrow_mut().push(w), &|| 0x0fu8);
    assert!(!unsupported);
    assert!(writes.borrow().is_empty());
}

fn bring_up_block() -> VirtioBlock {
    let mut pci = PCIController::new();
    pci.init(vec![pci_device(0x1af4, 0x1001, 2)]);
    VirtioBlock::try_new(
        &pci,
        |_d: Device| 2u16,
        |_d: Device| vec![capability(1, 0), capability(2, 0x3000), capability(3, 0x1000), capability(4, 0x2000)],
        |_w: ConfigWrite| {},
        |_c: CapabilityInfo| 4u32,
        |i: u16| if i == 0 { 8u16 } else { 0u16 },
        |_i: u16| 0u16,
    )
    .unwrap()
    .unwrap()
}

#[test]
fn virtio_block_init_sets_up_one_queue() {
    let mut blk = bring_up_block();
    let writes = std::cell::RefCell::new(Vec::new());
    let ready = blk.init(
        &|w: ConfigWrite| writes.borrow_mut().push(w),
        &|word: u32| if word == 0 { 0x3000_0000u32 } else { 1u32 },
        &|| 0x0fu8,
        &|i: u16| if i == 0 { 8u16 } else { 0u16 },
        &|_i: u16| 0x10_0000usize,
    );
    assert!(ready);
    assert_eq!(blk.queues.len(), 1);
    assert_eq!(blk.queues[0].queue_size(), 8);
    let w = writes.borrow();
    assert_eq!(w[0], ConfigWrite { offset: CFG_DEVICE_STATUS, value: DeviceStatus::STATE_LOADED as u64, width: 1 });
    assert_eq!(w[5], ConfigWrite { offset: CFG_DEVICE_STATUS, value: 0b1111, width: 1 });
    assert_eq!(w[6], ConfigWrite { offset: CFG_QUEUE_SELECT, value: 0, width: 2 });
    assert_eq!(w[7], ConfigWrite { offset: 0x20, value: 0x10_0000, width: 8 });
    assert_eq!(w[10], ConfigWrite { offset: CFG_QUEUE_ENABLE, value: 1, width: 2 });
    assert_eq!(w[11], ConfigWrite { offset: CFG_DEVICE_STATUS, value: DeviceStatus::STATE_READY as u64, width: 1 });
    assert_eq!(w.len(), 12);
}

#[test]
fn virtio_block_init_stops_when_features_refused() {
    let mut blk = bring_up_block();
    let ready = blk.init(
        &|_w: ConfigWrite| {},
        &|word: u32| if word == 0 { 0x3000_0000u32 } else { 1u32 },
        &|| 0x07u8,
        &|i: u16| if i == 0 { 8u16 } else { 0u16 },
        &|_i: u16| 0x10_0000usize,
    );
    assert!(!ready);
    assert!(blk.queues.is_empty());
}
