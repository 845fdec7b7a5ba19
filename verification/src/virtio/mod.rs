//! Generic VirtIO 1.0 device support: feature bits, PCI capabilities, the
//! device status register and the addresses of the configuration areas.

use vstd::prelude::*;

pub mod virtq;
pub mod block;

use virtq::{spec_calc_sizes, VirtQueue};
use crate::pci::{Device, PCIController};

verus! {

/// Word and bit of the RING_EVENT_IDX feature.
pub const FEATURE_RING_EVENT_IDX_WORD: usize = 0;
pub const FEATURE_RING_EVENT_IDX_BIT: u32 = 0x2000_0000;
/// Word and bit of the VIRTIO_1 feature.
pub const FEATURE_VIRTIO_1_WORD: usize = 1;
pub const FEATURE_VIRTIO_1_BIT: u32 = 1;

/// The two 32-bit words of device feature bits.
#[derive(Debug, Copy, Clone)]
pub struct FeatureBits {
    fields: [u32; 2],
}

impl FeatureBits {
    pub closed spec fn spec_fields(&self) -> Seq<u32> {
        self.fields@
    }

    pub fn new(fields: [u32; 2]) -> (r: FeatureBits)
        ensures
            r.spec_fields() == fields@,
    {
        FeatureBits { fields }
    }

    pub fn fields(self) -> (r: [u32; 2])
        ensures
            r@ == self.spec_fields(),
    {
        self.fields
    }

    /// Clears bit `pos.1` of word `pos.0`; a shift of a 32-bit word takes
    /// the bit position modulo 32.
    pub fn disable(&mut self, pos: (usize, u32))
        requires
            pos.0 < 2,
        ensures
            final(self).spec_fields() == old(self).spec_fields().update(
                pos.0 as int,
                old(self).spec_fields()[pos.0 as int] & !(1u32 << (pos.1 % 32)),
            ),
    {
        let v = self.fields[pos.0] & !(1u32 << (pos.1 % 32));
        self.fields[pos.0] = v;
    }

    /// Whether word `pos.0` has a bit set other than bit `pos.1`; a shift
    /// of a 32-bit word takes the bit position modulo 32.
    pub fn is_enabled(self, pos: (usize, u32)) -> (r: bool)
        requires
            pos.0 < 2,
        ensures
            r == feature_test(self.spec_fields(), pos),
    {
        self.fields[pos.0] & !(1u32 << (pos.1 % 32)) != 0
    }
}

/// What `is_enabled` answers for word `pos.0` and bit `pos.1` of `fields`.
pub open spec fn feature_test(fields: Seq<u32>, pos: (usize, u32)) -> bool {
    fields[pos.0 as int] & !(1u32 << (pos.1 % 32)) != 0
}

/// Kinds of VirtIO PCI capability.
#[derive(Debug, Clone, Copy, PartialEq, Eq)]
pub enum CapabilityType {
    Unknown,
    Common,
    Notify,
    Isr,
    Device,
    Pci,
}

/// The `cfg_type` number of a capability kind.
pub open spec fn capability_type_code(t: CapabilityType) -> u8 {
    match t {
        CapabilityType::Unknown => 0,
        CapabilityType::Common => 1,
        CapabilityType::Notify => 2,
        CapabilityType::Isr => 3,
        CapabilityType::Device => 4,
        CapabilityType::Pci => 5,
    }
}

/// The capability kind with `cfg_type` number `c`; unknown numbers give
/// `Unknown`.
pub open spec fn capability_type_of(c: u8) -> CapabilityType {
    if c == 1 {
        CapabilityType::Common
    } else if c == 2 {
        CapabilityType::Notify
    } else if c == 3 {
        CapabilityType::Isr
    } else if c == 4 {
        CapabilityType::Device
    } else if c == 5 {
        CapabilityType::Pci
    } else {
        CapabilityType::Unknown
    }
}

impl CapabilityType {
    pub fn code(self) -> (r: u8)
        ensures
            r == capability_type_code(self),
    {
        match self {
            CapabilityType::Unknown => 0,
            CapabilityType::Common => 1,
            CapabilityType::Notify => 2,
            CapabilityType::Isr => 3,
            CapabilityType::Device => 4,
            CapabilityType::Pci => 5,
        }
    }
}

/// A VirtIO PCI capability, as the PCI capability list describes it.
#[derive(Debug, Copy, Clone)]
pub struct CapabilityInfo {
    pub pci_cfg_addr: u8,
    pub cfg_type: u8,
    pub bar: u8,
    pub offset: u32,
    pub length: u32,
}

impl CapabilityInfo {
    pub fn cfg_type(&self) -> (r: CapabilityType)
        ensures
            r == capability_type_of(self.cfg_type),
    {
        match self.cfg_type {
            1 => CapabilityType::Common,
            2 => CapabilityType::Notify,
            3 => CapabilityType::Isr,
            4 => CapabilityType::Device,
            5 => CapabilityType::Pci,
            _ => CapabilityType::Unknown,
        }
    }
}

/// VirtIO device kinds, numbered as the PCI subsystem id names them.
#[derive(Debug, Clone, Copy, PartialEq, Eq)]
pub enum DeviceType {
    NetworkCard,
    BlockDevice,
    Console,
    EntropySource,
    MemoryBallooning,
    IOMemory,
    RPMSG,
    SCSIHost,
    Transport9p,
    Mac802_11wlan,
}

pub open spec fn device_type_code(t: DeviceType) -> u16 {
    match t {
        DeviceType::NetworkCard => 1,
        DeviceType::BlockDevice => 2,
        DeviceType::Console => 3,
        DeviceType::EntropySource => 4,
        DeviceType::MemoryBallooning => 5,
        DeviceType::IOMemory => 6,
        DeviceType::RPMSG => 7,
        DeviceType::SCSIHost => 8,
        DeviceType::Transport9p => 9,
        DeviceType::Mac802_11wlan => 10,
    }
}

impl DeviceType {
    pub fn code(self) -> (r: u16)
        ensures
            r == device_type_code(self),
    {
        match self {
            DeviceType::NetworkCard => 1,
            DeviceType::BlockDevice => 2,
            DeviceType::Console => 3,
            DeviceType::EntropySource => 4,
            DeviceType::MemoryBallooning => 5,
            DeviceType::IOMemory => 6,
            DeviceType::RPMSG => 7,
            DeviceType::SCSIHost => 8,
            DeviceType::Transport9p => 9,
            DeviceType::Mac802_11wlan => 10,
        }
    }
}

/// Whether a PCI device is a VirtIO device of the requested type: vendor
/// 0x1af4, device id in 0x1000..=0x103f, subsystem id the type's number.
pub fn is_virtio_device(vendor: u16, id: u16, subsystem_id: u16, device_type: DeviceType) -> (r:
    bool)
    ensures
        r == (vendor == 0x1af4 && 0x1000 <= id <= 0x103f && subsystem_id == device_type_code(
            device_type,
        )),
{
    vendor == 0x1af4 && (0x1000 <= id && id <= 0x103f) && subsystem_id == device_type.code()
}

/// `d` is a VirtIO device (vendor 0x1af4, device id in 0x1000..=0x103f)
/// and `subsystem` names the type `t`.
pub open spec fn virtio_match(d: Device, subsystem: u16, t: DeviceType) -> bool {
    d.vendor == 0x1af4 && 0x1000 <= d.id <= 0x103f && subsystem == device_type_code(t)
}

/// What the test of device `d` answered: accepted where its vendor and id
/// are VirtIO's and its subsystem id, read with `subsystem_id`, names the
/// type `t`; the subsystem id is read only for VirtIO vendor and ids.
pub open spec fn virtio_tested<F: Fn(Device) -> u16>(subsystem_id: F, d: Device, t: DeviceType, b: bool) -> bool {
    if d.vendor == 0x1af4 && 0x1000 <= d.id <= 0x103f {
        exists|s: u16| #[trigger] subsystem_id.ensures((d,), s) && b == (s == device_type_code(t))
    } else {
        !b
    }
}

/// The first device, in scan order, that is a VirtIO device of type
/// `device_type`; `subsystem_id` reads a device's subsystem id.
pub fn find_pci_device<F: Fn(Device) -> u16>(pci: &PCIController, device_type: DeviceType, subsystem_id: F) -> (r:
    Option<Device>)
    requires
        pci.spec_devices() is Some,
        forall|d: Device| subsystem_id.requires((d,)),
    ensures
        ({
            let devs = pci.spec_devices()->0;
            match r {
                Some(d) => exists|i: int|
                    #![trigger devs[i]]
                    0 <= i < devs.len() && devs[i] == d && virtio_tested(subsystem_id, d, device_type, true)
                        && forall|j: int| 0 <= j < i ==> virtio_tested(subsystem_id, devs[j], device_type, false),
                None => forall|i: int| 0 <= i < devs.len() ==> virtio_tested(subsystem_id, devs[i], device_type, false),
            }
        }),
{
    let code = device_type.code();
    let f = &subsystem_id;
    let pred = |dev: Device| -> (b: bool)
        requires
            forall|d: Device| f.requires((d,)),
        ensures
            virtio_tested(*f, dev, device_type, b),
        {
            if dev.vendor == 0x1af4 && (0x1000 <= dev.id && dev.id <= 0x103f) {
                let s = f(dev);
                s == code
            } else {
                false
            }
        };
    let r = pci.find(pred);
    proof {
        assert forall|d: Device, b: bool| #[trigger] pred.ensures((d,), b) implies virtio_tested(subsystem_id, d, device_type, b) by {}
    }
    r
}

/// The device status register's flags.
#[derive(Debug, Clone, Copy, PartialEq, Eq)]
pub struct DeviceStatus {
    pub bits: u8,
}

impl DeviceStatus {
    pub const ACKNOWLEDGE: u8 = 0b00000001;
    pub const DRIVER: u8 = 0b00000010;
    pub const DRIVER_OK: u8 = 0b00000100;
    pub const FEATURES_OK: u8 = 0b00001000;
    pub const DEVICE_ERROR: u8 = 0b01000000;
    pub const DRIVER_ERROR: u8 = 0b10000000;
    pub const RESET: u8 = 0;
    pub const STATE_LOADED: u8 = 0b00000011;
    pub const STATE_READY: u8 = 0b00001111;
    /// All flags that have a name.
    pub const ALL: u8 = 0b11001111;

    /// The named flags among `bits`.
    pub fn from_bits_truncate(bits: u8) -> (r: DeviceStatus)
        ensures
            r.bits == bits & DeviceStatus::ALL,
    {
        DeviceStatus { bits: bits & DeviceStatus::ALL }
    }

    /// Whether all flags of `other` are set.
    pub fn contains(&self, other: u8) -> (r: bool)
        ensures
            r == (self.bits & other == other),
    {
        self.bits & other == other
    }
}

/// Offsets of the common configuration registers.
pub const CFG_DEVICE_FEATURE_SELECT: u64 = 0x00;
pub const CFG_DEVICE_FEATURE: u64 = 0x04;
pub const CFG_DRIVER_FEATURE_SELECT: u64 = 0x08;
pub const CFG_DRIVER_FEATURE: u64 = 0x0c;
pub const CFG_MSIX_CONFIG: u64 = 0x10;
pub const CFG_NUM_QUEUES: u64 = 0x12;
pub const CFG_DEVICE_STATUS: u64 = 0x14;
pub const CFG_CONFIG_GENERATION: u64 = 0x15;
pub const CFG_QUEUE_SELECT: u64 = 0x16;
pub const CFG_QUEUE_SIZE: u64 = 0x18;
pub const CFG_QUEUE_MSIX_VECTOR: u64 = 0x1a;
pub const CFG_QUEUE_ENABLE: u64 = 0x1c;
pub const CFG_QUEUE_NOTIFY_OFF: u64 = 0x1e;
pub const CFG_QUEUE_DESC: u64 = 0x20;
pub const CFG_QUEUE_AVAIL: u64 = 0x28;
pub const CFG_QUEUE_USED: u64 = 0x30;

/// The first capability of `caps` with `cfg_type == t`, if any.
pub open spec fn first_capability(caps: Seq<CapabilityInfo>, t: u8) -> Option<int> {
    if exists|i: int| 0 <= i < caps.len() && caps[i].cfg_type == t {
        Some(
            choose|i: int|
                0 <= i < caps.len() && caps[i].cfg_type == t && forall|j: int|
                    0 <= j < i ==> caps[j].cfg_type != t,
        )
    } else {
        None
    }
}

/// Base address of a 64-bit memory BAR from its two registers.
pub open spec fn bar_base(bar_lo: u32, bar_hi: u32) -> int {
    (bar_lo - bar_lo % 16) + bar_hi * 0x1_0000_0000
}

/// The BAR is a 64-bit memory BAR: bit 0 clear, bits 1-2 equal to 0b10.
pub open spec fn is_memory_bar64(bar_lo: u32) -> bool {
    bar_lo % 2 == 0 && (bar_lo / 2) % 4 == 2
}

/// The PCI side of a VirtIO device: its capabilities and notification
/// offsets.
pub struct VirtioDevice {
    pub capabilities: Vec<CapabilityInfo>,
    /// (notify_off_multiplier, queue_notify_off of each queue)
    pub notify_multiplier: u32,
    pub notify_offsets: Vec<u16>,
}

impl VirtioDevice {
    /// A device with the capabilities read from its PCI capability list.
    pub fn try_new(capabilities: Vec<CapabilityInfo>) -> (d: VirtioDevice)
        ensures
            d.capabilities == capabilities,
            d.notify_multiplier == 0,
            d.notify_offsets@.len() == 0,
    {
        VirtioDevice { capabilities, notify_multiplier: 0, notify_offsets: Vec::new() }
    }

    /// The first capability of the given kind.
    pub fn capability(&self, cfg_type: CapabilityType) -> (r: Option<CapabilityInfo>)
        ensures
            match first_capability(self.capabilities@, capability_type_code(cfg_type)) {
                Some(i) => r == Some(self.capabilities@[i]),
                None => r is None,
            },
            r is Some <==> has_capability(self.capabilities@, capability_type_code(cfg_type)),
    {
        let t = cfg_type.code();
        let mut i: usize = 0;
        while i < self.capabilities.len()
            invariant
                i <= self.capabilities@.len(),
                t == capability_type_code(cfg_type),
                forall|j: int| 0 <= j < i ==> self.capabilities@[j].cfg_type != t,
            decreases self.capabilities@.len() - i,
        {
            if self.capabilities[i].cfg_type == t {
                proof {
                    let caps = self.capabilities@;
                    let c = choose|k: int|
                        0 <= k < caps.len() && caps[k].cfg_type == t && forall|j: int|
                            0 <= j < k ==> caps[j].cfg_type != t;
                    assert(0 <= c < caps.len() && caps[c].cfg_type == t && forall|j: int|
                        0 <= j < c ==> caps[j].cfg_type != t);
                    if c < i {
                    } else if c > i {
                        assert(caps[i as int].cfg_type != t);
                    }
                }
                return Some(self.capabilities[i]);
            }
            i = i + 1;
        }
        None
    }

    /// Physical address of a capability's area inside the 64-bit memory BAR
    /// whose registers hold `bar_lo` and `bar_hi`.
    pub fn capability_addr(cap: &CapabilityInfo, bar_lo: u32, bar_hi: u32) -> (r: u64)
        requires
            is_memory_bar64(bar_lo),
            bar_base(bar_lo, bar_hi) + cap.offset <= u64::MAX,
        ensures
            r == bar_base(bar_lo, bar_hi) + cap.offset,
    {
        let lo = bar_lo & !0xfu32;
        assert(bar_lo & !0xfu32 == bar_lo - bar_lo % 16) by (bit_vector);
        let base_addr = lo as u64 + (bar_hi as u64) * 0x1_0000_0000;
        base_addr + (cap.offset as u64)
    }

    /// Length of the first capability of the given kind.
    pub fn capability_size(&self, ct: CapabilityType) -> (r: u64)
        requires
            first_capability(self.capabilities@, capability_type_code(ct)) is Some,
        ensures
            r == self.capabilities@[first_capability(
                self.capabilities@,
                capability_type_code(ct),
            )->0].length,
    {
        let cap = self.capability(ct);
        match cap {
            Some(c) => c.length as u64,
            None => 0,
        }
    }

    /// Address of the common configuration register at `offset`.
    pub fn config_addr(common_base: u64, offset: u64) -> (r: u64)
        requires
            common_base + offset <= u64::MAX,
        ensures
            r == common_base + offset,
    {
        common_base + offset
    }

    /// Address at which to notify the device about queue `queue_index`.
    pub fn notify_addr(&self, notify_base: u64, queue_index: u16) -> (r: u64)
        requires
            queue_index < self.notify_offsets@.len(),
            notify_base + self.notify_multiplier * self.notify_offsets@[queue_index as int]
                <= u64::MAX,
        ensures
            r == notify_base + self.notify_multiplier * self.notify_offsets@[queue_index as int],
    {
        let m = self.notify_multiplier as u64;
        let o = self.notify_offsets[queue_index as usize] as u64;
        assert(m * o <= 0xffff_ffff * 0xffff) by (nonlinear_arith)
            requires
                m <= 0xffff_ffff,
                o <= 0xffff,
        ;
        notify_base + m * o
    }

    /// The three queue area addresses for a queue at `base_addr` whose parts
    /// have sizes `sizes`: descriptors, available ring, used ring.
    pub fn queue_addresses(base_addr: u64, sizes: (u64, u64, u64)) -> (r: (u64, u64, u64))
        requires
            base_addr + sizes.0 + sizes.1 <= u64::MAX,
        ensures
            r.0 == base_addr,
            r.1 == base_addr + sizes.0,
            r.2 == base_addr + sizes.0 + sizes.1,
    {
        (base_addr, base_addr + sizes.0, base_addr + (sizes.0 + sizes.1))
    }
}

/// A write of `width` bytes of `value` to the common configuration
/// register at `offset`.
#[derive(Debug, Clone, Copy, PartialEq, Eq, Structural)]
pub struct ConfigWrite {
    pub offset: u64,
    pub value: u64,
    pub width: u8,
}

/// The register write of `value`, `width` bytes wide, at `offset`.
pub open spec fn cw(offset: u64, value: u64, width: u8) -> ConfigWrite {
    ConfigWrite { offset, value, width }
}

/// The writes that tell the device where the queue at `base` lies.
pub open spec fn queue_addr_writes(base: u64, queue_size: u16) -> Seq<ConfigWrite> {
    let (a, b, _) = spec_calc_sizes(queue_size);
    seq![
        cw(CFG_QUEUE_DESC, base, 8),
        cw(CFG_QUEUE_AVAIL, (base + a) as u64, 8),
        cw(CFG_QUEUE_USED, (base + a + b) as u64, 8)
    ]
}

/// The writes that set up the selected queue, of `queue_size` entries at
/// `base`: its three areas, then enabling it.
pub open spec fn queue_setup_writes(base: u64, queue_size: u16) -> Seq<ConfigWrite> {
    queue_addr_writes(base, queue_size).push(cw(CFG_QUEUE_ENABLE, 1, 2))
}

/// The number of queues set up from the sizes the device reports for
/// queues 0, 1, ..., counting from queue `i`: up to the first of size
/// zero, the end of the list or queue 16.
pub open spec fn taken_from(sizes: Seq<u16>, i: int) -> int
    decreases 16 - i,
{
    if i >= 16 || i >= sizes.len() || i < 0 || sizes[i] == 0 {
        i
    } else {
        taken_from(sizes, i + 1)
    }
}

/// The number of queues set up from the reported sizes.
pub open spec fn queues_taken(sizes: Seq<u16>) -> int {
    taken_from(sizes, 0)
}

/// Every byte of `mem` is zero.
pub open spec fn is_zeroed(mem: Seq<u8>) -> bool {
    forall|i: int| 0 <= i < mem.len() ==> mem[i] == 0
}

/// The writes that select and set up queues `0..k`.
pub open spec fn init_writes(sizes: Seq<u16>, addresses: Seq<usize>, k: int) -> Seq<ConfigWrite>
    decreases k,
{
    if k <= 0 {
        Seq::empty()
    } else {
        init_writes(sizes, addresses, k - 1).push(cw(CFG_QUEUE_SELECT, (k - 1) as u64, 2)) + queue_setup_writes(
            addresses[k - 1] as u64,
            sizes[k - 1],
        )
    }
}

proof fn lemma_taken_from(sizes: Seq<u16>, i: int)
    requires
        0 <= i,
    ensures
        taken_from(sizes, i) >= i,
        taken_from(sizes, i) <= 16 || taken_from(sizes, i) == i,
        taken_from(sizes, i) <= sizes.len() || taken_from(sizes, i) == i,
    decreases 16 - i,
{
    if !(i >= 16 || i >= sizes.len() || sizes[i] == 0) {
        lemma_taken_from(sizes, i + 1);
    }
}

impl VirtioDevice {
    /// The status from the value of the status register.
    pub fn get_status(&self, raw: u8) -> (r: DeviceStatus)
        ensures
            r.bits == raw & DeviceStatus::ALL,
    {
        DeviceStatus::from_bits_truncate(raw)
    }

    /// The write that sets the device status.
    pub fn set_status(&self, status: DeviceStatus) -> (r: ConfigWrite)
        ensures
            r == cw(CFG_DEVICE_STATUS, status.bits as u64, 1),
    {
        ConfigWrite { offset: CFG_DEVICE_STATUS, value: status.bits as u64, width: 1 }
    }

    /// The write that resets the device.
    pub fn reset(&self) -> (r: ConfigWrite)
        ensures
            r == cw(CFG_DEVICE_STATUS, 0, 1),
    {
        self.set_status(DeviceStatus { bits: DeviceStatus::RESET })
    }

    /// The write that selects word `word` of the device feature bits.
    pub fn feature_select(&self, word: u32) -> (r: ConfigWrite)
        ensures
            r == cw(CFG_DEVICE_FEATURE_SELECT, word as u64, 4),
    {
        ConfigWrite { offset: CFG_DEVICE_FEATURE_SELECT, value: word as u64, width: 4 }
    }

    /// Feature bits, from the feature register read with word 0 and then
    /// word 1 selected.
    pub fn features(&self, lo: u32, hi: u32) -> (r: FeatureBits)
        ensures
            r.spec_fields() == seq![lo, hi],
    {
        let r = FeatureBits::new([lo, hi]);
        assert(r.spec_fields() =~= seq![lo, hi]);
        r
    }

    /// Number of queues, from its register.
    pub fn num_queues(&self, raw: u8) -> (r: u8)
        ensures
            r == raw,
    {
        raw
    }

    /// This is queue_notify_off in spec, from its register.
    pub fn queue_notify_offset(&self, raw: u16) -> (r: u16)
        ensures
            r == raw,
    {
        raw
    }

    /// Queue size (max element count) for the selected queue, from its
    /// register.
    pub fn queue_size(&self, raw: u16) -> (r: u16)
        ensures
            r == raw,
    {
        raw
    }

    /// The write that selects a queue for configuration access.
    pub fn select_queue(&self, index: u16) -> (r: ConfigWrite)
        ensures
            r == cw(CFG_QUEUE_SELECT, index as u64, 2),
    {
        ConfigWrite { offset: CFG_QUEUE_SELECT, value: index as u64, width: 2 }
    }

    /// The writes of the queue's three area addresses.
    pub fn set_queue_addr(&self, vq: &VirtQueue) -> (r: Vec<ConfigWrite>)
        requires
            vq.spec_addr() + spec_calc_sizes(vq.qsize()).0 + spec_calc_sizes(vq.qsize()).1 <= u64::MAX,
        ensures
            r@ == queue_addr_writes(vq.spec_addr() as u64, vq.qsize()),
    {
        let base_addr = vq.addr() as u64;
        let (a, b, _) = vq.sizes();
        let mut w: Vec<ConfigWrite> = Vec::new();
        w.push(ConfigWrite { offset: CFG_QUEUE_DESC, value: base_addr, width: 8 });
        w.push(ConfigWrite { offset: CFG_QUEUE_AVAIL, value: base_addr + a, width: 8 });
        w.push(ConfigWrite { offset: CFG_QUEUE_USED, value: base_addr + (a + b), width: 8 });
        assert(w@ =~= queue_addr_writes(vq.spec_addr() as u64, vq.qsize()));
        w
    }

    /// Enable or disable a queue
    pub fn set_queue_enabled(&self, enabled: bool) -> (r: ConfigWrite)
        ensures
            r == cw(CFG_QUEUE_ENABLE, if enabled { 1 } else { 0 }, 2),
    {
        ConfigWrite { offset: CFG_QUEUE_ENABLE, value: if enabled { 1 } else { 0 }, width: 2 }
    }

    /// The selected queue, of `queue_size` entries, zeroed in the DMA block
    /// at `address`, and the writes that hand it to the device.
    pub fn init_current_queue(&self, queue_size: u16, address: usize) -> (r: (VirtQueue, Vec<ConfigWrite>))
        requires
            address + 0x20_0000 <= u64::MAX,
        ensures
            r.0.wf(),
            r.0.qsize() == queue_size,
            r.0.spec_addr() == address,
            forall|i: int| 0 <= i < r.0.mem().len() ==> r.0.mem()[i] == 0,
            r.1@ == queue_setup_writes(address as u64, queue_size),
    {
        let mut vq = VirtQueue::new(queue_size, address);
        vq.zero();
        let _ = VirtQueue::calc_size(queue_size);
        let mut w = self.set_queue_addr(&vq);
        w.push(self.set_queue_enabled(true));
        (vq, w)
    }

    /// Sets up the queues whose sizes the device reported, queue `i` in the
    /// DMA block at `addresses[i]`: those before the first of size zero, at
    /// most 16. For each, the write that selects it and those that set it
    /// up, in order.
    pub fn init_queues(&self, sizes: &Vec<u16>, addresses: &Vec<usize>) -> (r: (Vec<VirtQueue>, Vec<ConfigWrite>))
        requires
            addresses@.len() >= queues_taken(sizes@),
            forall|i: int| 0 <= i < addresses@.len() ==> addresses@[i] + 0x20_0000 <= u64::MAX,
        ensures
            r.0@.len() == queues_taken(sizes@),
            forall|i: int| 0 <= i < r.0@.len() ==> (#[trigger] r.0@[i]).wf() && r.0@[i].qsize() == sizes@[i]
                && r.0@[i].spec_addr() == addresses@[i] && is_zeroed(r.0@[i].mem()),
            r.1@ == init_writes(sizes@, addresses@, queues_taken(sizes@)),
    {
        let mut queues: Vec<VirtQueue> = Vec::new();
        let mut writes: Vec<ConfigWrite> = Vec::new();
        let mut i: usize = 0;
        proof {
            lemma_taken_from(sizes@, 0);
        }
        while i < 16 && i < sizes.len() && sizes[i] != 0
            invariant
                i <= 16,
                i <= sizes@.len(),
                taken_from(sizes@, i as int) == queues_taken(sizes@),
                addresses@.len() >= queues_taken(sizes@),
                forall|k: int| 0 <= k < addresses@.len() ==> addresses@[k] + 0x20_0000 <= u64::MAX,
                queues@.len() == i,
                forall|k: int| 0 <= k < i ==> (#[trigger] queues@[k]).wf() && queues@[k].qsize() == sizes@[k]
                    && queues@[k].spec_addr() == addresses@[k] && is_zeroed(queues@[k].mem()),
                writes@ == init_writes(sizes@, addresses@, i as int),
            decreases 16 - i,
        {
            proof {
                lemma_taken_from(sizes@, i + 1);
            }
            writes.push(self.select_queue(i as u16));
            let (vq, w) = self.init_current_queue(sizes[i], addresses[i]);
            queues.push(vq);
            let mut w = w;
            writes.append(&mut w);
            i = i + 1;
            proof {
                assert(writes@ =~= init_writes(sizes@, addresses@, i as int));
            }
        }
        (queues, writes)
    }

    /// Records how the device is notified: the offset multiplier read from
    /// the notification capability, and the notification offset of each
    /// queue before the first of size zero, at most 16, where `offsets[i]`
    /// was read with queue `i` selected.
    pub fn init_notifications(&mut self, multiplier: u32, sizes: &Vec<u16>, offsets: &Vec<u16>)
        requires
            old(self).notify_multiplier == 0,
            first_capability(old(self).capabilities@, capability_type_code(CapabilityType::Notify)) is Some,
            offsets@.len() >= queues_taken(sizes@),
        ensures
            final(self).capabilities == old(self).capabilities,
            final(self).notify_multiplier == multiplier,
            final(self).notify_offsets@ == old(self).notify_offsets@ + offsets@.take(queues_taken(sizes@)),
    {
        self.notify_multiplier = multiplier;
        let mut i: usize = 0;
        proof {
            lemma_taken_from(sizes@, 0);
        }
        while i < 16 && i < sizes.len() && sizes[i] != 0
            invariant
                i <= 16,
                i <= sizes@.len(),
                taken_from(sizes@, i as int) == queues_taken(sizes@),
                offsets@.len() >= queues_taken(sizes@),
                self.capabilities == old(self).capabilities,
                self.notify_multiplier == multiplier,
                self.notify_offsets@ == old(self).notify_offsets@ + offsets@.take(i as int),
            decreases 16 - i,
        {
            proof {
                lemma_taken_from(sizes@, i + 1);
            }
            self.notify_offsets.push(offsets[i]);
            i = i + 1;
            proof {
                assert(self.notify_offsets@ =~= old(self).notify_offsets@ + offsets@.take(i as int));
            }
        }
    }
}

/// The writes that offer the feature words `features` to the device, word
/// 0 then word 1, and then set its status to STATE_READY | FEATURES_OK;
/// `None` where the words fail the RING_EVENT_IDX or the VIRTIO_1 test.
pub open spec fn feature_plan(features: Seq<u32>) -> Option<Seq<ConfigWrite>> {
    if !feature_test(features, (FEATURE_RING_EVENT_IDX_WORD, FEATURE_RING_EVENT_IDX_BIT))
        || !feature_test(features, (FEATURE_VIRTIO_1_WORD, FEATURE_VIRTIO_1_BIT)) {
        None
    } else {
        Some(
            seq![
                cw(CFG_DRIVER_FEATURE_SELECT, 0, 4),
                cw(CFG_DRIVER_FEATURE, features[0] as u64, 4),
                cw(CFG_DRIVER_FEATURE_SELECT, 1, 4),
                cw(CFG_DRIVER_FEATURE, features[1] as u64, 4),
                cw(CFG_DEVICE_STATUS, (DeviceStatus::STATE_READY | DeviceStatus::FEATURES_OK) as u64, 1)
            ],
        )
    }
}

/// The status register's value `raw` shows FEATURES_OK.
pub open spec fn features_accepted(raw: u8) -> bool {
    (raw & DeviceStatus::ALL) & DeviceStatus::FEATURES_OK == DeviceStatus::FEATURES_OK
}

impl VirtioDevice {
    /// The writes of feature negotiation for `features`, as
    /// `feature_plan` gives them; `None` where the device does not
    /// support VirtIO 1.0.
    pub fn feature_writes(&self, features: FeatureBits) -> (r: Option<Vec<ConfigWrite>>)
        ensures
            feature_plan(features.spec_fields()) == match r {
                Some(v) => Some(v@),
                None => None::<Seq<ConfigWrite>>,
            },
    {
        if !features.is_enabled((FEATURE_RING_EVENT_IDX_WORD, FEATURE_RING_EVENT_IDX_BIT))
            || !features.is_enabled((FEATURE_VIRTIO_1_WORD, FEATURE_VIRTIO_1_BIT)) {
            return None;
        }
        let fields = features.fields();
        let mut w: Vec<ConfigWrite> = Vec::new();
        w.push(ConfigWrite { offset: CFG_DRIVER_FEATURE_SELECT, value: 0, width: 4 });
        w.push(ConfigWrite { offset: CFG_DRIVER_FEATURE, value: fields[0] as u64, width: 4 });
        w.push(ConfigWrite { offset: CFG_DRIVER_FEATURE_SELECT, value: 1, width: 4 });
        w.push(ConfigWrite { offset: CFG_DRIVER_FEATURE, value: fields[1] as u64, width: 4 });
        w.push(self.set_status(DeviceStatus { bits: DeviceStatus::STATE_READY | DeviceStatus::FEATURES_OK }));
        proof {
            assert(w@ =~= feature_plan(features.spec_fields())->0);
        }
        Some(w)
    }

    /// Feature negotiation: where the device supports VirtIO 1.0, offers
    /// `features` to it with `write`, sets its status to STATE_READY |
    /// FEATURES_OK, and tells whether the status read back with
    /// `read_status` shows FEATURES_OK. Otherwise writes nothing and
    /// answers false.
    pub fn set_features<W: Fn(ConfigWrite), R: Fn() -> u8>(&self, features: FeatureBits, write: &W, read_status: &R) -> (r: bool)
        requires
            forall|w: ConfigWrite| write.requires((w,)),
            read_status.requires(()),
        ensures
            match feature_plan(features.spec_fields()) {
                None => !r,
                Some(p) => {
                    &&& forall|i: int| 0 <= i < p.len() ==> write.ensures((#[trigger] p[i],), ())
                    &&& exists|s: u8| #[trigger] read_status.ensures((), s) && r == features_accepted(s)
                },
            },
    {
        let plan = match self.feature_writes(features) {
            Some(p) => p,
            None => return false,
        };
        let mut i: usize = 0;
        while i < plan.len()
            invariant
                i <= plan@.len(),
                forall|w: ConfigWrite| write.requires((w,)),
                forall|k: int| 0 <= k < i ==> write.ensures((#[trigger] plan@[k],), ()),
            decreases plan@.len() - i,
        {
            write(plan[i]);
            i = i + 1;
        }
        let raw = read_status();
        let status = self.get_status(raw);
        status.contains(DeviceStatus::FEATURES_OK)
    }
}

/// Why a VirtIO device that was found cannot be brought up.
#[derive(Debug, Clone, Copy, PartialEq, Eq)]
pub enum BringUpError {
    /// The device lacks a capability that the driver maps: the common,
    /// device, notification or ISR configuration.
    MissingCapability(CapabilityType),
}

/// The capability kinds that a device must offer, in the order in which
/// they are looked for.
pub open spec fn required_capabilities() -> Seq<CapabilityType> {
    seq![CapabilityType::Common, CapabilityType::Device, CapabilityType::Notify, CapabilityType::Isr]
}

/// `caps` holds a capability with `cfg_type == t`.
pub open spec fn has_capability(caps: Seq<CapabilityInfo>, t: u8) -> bool {
    exists|i: int| 0 <= i < caps.len() && caps[i].cfg_type == t
}

/// The first required capability kind that `caps` lacks, if any.
pub open spec fn missing_capability(caps: Seq<CapabilityInfo>) -> Option<CapabilityType> {
    if !has_capability(caps, capability_type_code(CapabilityType::Common)) {
        Some(CapabilityType::Common)
    } else if !has_capability(caps, capability_type_code(CapabilityType::Device)) {
        Some(CapabilityType::Device)
    } else if !has_capability(caps, capability_type_code(CapabilityType::Notify)) {
        Some(CapabilityType::Notify)
    } else if !has_capability(caps, capability_type_code(CapabilityType::Isr)) {
        Some(CapabilityType::Isr)
    } else {
        None
    }
}

/// Device `i` of `devs` is the first that the test accepted, every one
/// before it rejected.
pub open spec fn first_virtio<F: Fn(Device) -> u16>(devs: Seq<Device>, subsystem_id: F, t: DeviceType, i: int) -> bool {
    &&& 0 <= i < devs.len()
    &&& virtio_tested(subsystem_id, devs[i], t, true)
    &&& forall|j: int| 0 <= j < i ==> virtio_tested(subsystem_id, devs[j], t, false)
}

/// Queue `i`'s size was read as nonzero.
pub open spec fn size_read_nonzero<Z: Fn(u16) -> u16>(queue_size: Z, i: int) -> bool {
    exists|s: u16| #[trigger] queue_size.ensures((i as u16,), s) && s != 0
}

/// `offsets` are the notification offsets of the queues before the first
/// of size zero, at most 16: queue `i`'s size read nonzero and its offset
/// read as `offsets[i]`, and, below 16, the next queue's size read zero.
pub open spec fn notify_offsets_read<Z: Fn(u16) -> u16, O: Fn(u16) -> u16>(
    queue_size: Z,
    queue_notify_offset: O,
    offsets: Seq<u16>,
) -> bool {
    &&& offsets.len() <= 16
    &&& forall|i: int| 0 <= i < offsets.len() ==> #[trigger] size_read_nonzero(queue_size, i)
    &&& forall|i: int| 0 <= i < offsets.len() ==> queue_notify_offset.ensures((i as u16,), #[trigger] offsets[i])
    &&& offsets.len() < 16 ==> queue_size.ensures((offsets.len() as u16,), 0u16)
}

impl VirtioDevice {
    /// The first of the common, device, notification and ISR
    /// configurations, in that order, that the device lacks.
    pub fn first_missing_capability(&self) -> (r: Option<CapabilityType>)
        ensures
            r == missing_capability(self.capabilities@),
    {
        if self.capability(CapabilityType::Common).is_none() {
            Some(CapabilityType::Common)
        } else if self.capability(CapabilityType::Device).is_none() {
            Some(CapabilityType::Device)
        } else if self.capability(CapabilityType::Notify).is_none() {
            Some(CapabilityType::Notify)
        } else if self.capability(CapabilityType::Isr).is_none() {
            Some(CapabilityType::Isr)
        } else {
            None
        }
    }
}

/// Reads the sizes of queues 0, 1, ... up to the first of size zero, at
/// most 16, and the notification offset of each queue before it: the
/// sizes read, and the offsets.
fn read_queue_notify_offsets<Z: Fn(u16) -> u16, O: Fn(u16) -> u16>(queue_size: &Z, queue_notify_offset: &O) -> (r: (
    Vec<u16>,
    Vec<u16>,
))
    requires
        forall|i: u16| queue_size.requires((i,)),
        forall|i: u16| queue_notify_offset.requires((i,)),
    ensures
        queues_taken(r.0@) == r.1@.len(),
        notify_offsets_read(*queue_size, *queue_notify_offset, r.1@),
{
    let mut sizes: Vec<u16> = Vec::new();
    let mut offsets: Vec<u16> = Vec::new();
    let mut index: u16 = 0;
    let mut done = false;
    while index < 16 && !done
        invariant
            index <= 16,
            forall|i: u16| queue_size.requires((i,)),
            forall|i: u16| queue_notify_offset.requires((i,)),
            sizes@.len() == index + (if done { 1int } else { 0int }),
            offsets@.len() == index,
            forall|i: int| 0 <= i < index ==> queue_size.ensures((i as u16,), #[trigger] sizes@[i]) && sizes@[i] != 0,
            forall|i: int| 0 <= i < index ==> queue_notify_offset.ensures((i as u16,), #[trigger] offsets@[i]),
            done ==> queue_size.ensures((index,), sizes@[index as int]) && sizes@[index as int] == 0,
        decreases 16 - index + (if done { 0int } else { 1int }),
    {
        let size = queue_size(index);
        sizes.push(size);
        if size == 0 {
            done = true;
        } else {
            let offset = queue_notify_offset(index);
            offsets.push(offset);
            index = index + 1;
        }
    }
    proof {
        assert forall|i: int| 0 <= i < offsets@.len() implies #[trigger] size_read_nonzero(*queue_size, i) by {
            assert(queue_size.ensures((i as u16,), sizes@[i]));
        }
        lemma_taken_prefix(sizes@, 0, offsets@.len() as int);
    }
    (sizes, offsets)
}

/// Where queues `i..k` of `sizes` are nonzero and `k` ends the run (16,
/// the end of the list, or a zero), the queues taken from `i` are `k`.
proof fn lemma_taken_prefix(sizes: Seq<u16>, i: int, k: int)
    requires
        0 <= i <= k <= 16,
        k <= sizes.len(),
        forall|j: int| i <= j < k ==> sizes[j] != 0,
        k == 16 || k == sizes.len() || sizes[k] == 0,
    ensures
        taken_from(sizes, i) == k,
    decreases k - i,
{
    if i < k {
        lemma_taken_prefix(sizes, i + 1, k);
    }
}

/// What bringing up the first VirtIO device of type `t` among `devs` gave:
/// `Ok(None)` where no device is of the type; otherwise the first such
/// device `d`, whose capabilities were read, and an error naming the first
/// required configuration that it lacks, or the device after it was reset
/// (its status written 0), with the notification multiplier read from its
/// notification capability and the notification offsets of its queues.
pub open spec fn brought_up<
    S: Fn(Device) -> u16,
    C: Fn(Device) -> Vec<CapabilityInfo>,
    W: Fn(ConfigWrite),
    M: Fn(CapabilityInfo) -> u32,
    Z: Fn(u16) -> u16,
    O: Fn(u16) -> u16,
>(
    devs: Seq<Device>,
    t: DeviceType,
    subsystem_id: S,
    read_capabilities: C,
    write: W,
    notify_multiplier: M,
    queue_size: Z,
    queue_notify_offset: O,
    r: Result<Option<(Device, VirtioDevice)>, BringUpError>,
) -> bool {
    let notify = capability_type_code(CapabilityType::Notify);
    match r {
        Ok(None) => forall|i: int| 0 <= i < devs.len() ==> virtio_tested(subsystem_id, devs[i], t, false),
        Ok(Some((d, dev))) => {
            &&& exists|i: int| #[trigger] first_virtio(devs, subsystem_id, t, i) && devs[i] == d
            &&& read_capabilities.ensures((d,), dev.capabilities)
            &&& missing_capability(dev.capabilities@) is None
            &&& write.ensures((cw(CFG_DEVICE_STATUS, 0, 1),), ())
            &&& first_capability(dev.capabilities@, notify) matches Some(k)
                && notify_multiplier.ensures((dev.capabilities@[k],), dev.notify_multiplier)
            &&& notify_offsets_read(queue_size, queue_notify_offset, dev.notify_offsets@)
        },
        Err(BringUpError::MissingCapability(m)) => exists|i: int, caps: Vec<CapabilityInfo>|
            #[trigger] first_virtio(devs, subsystem_id, t, i)
                && #[trigger] read_capabilities.ensures((devs[i],), caps)
                && missing_capability(caps@) == Some(m),
    }
}

impl VirtioDevice {
    /// Finds and brings up the first VirtIO device of type `device_type`:
    /// reads its capabilities, checks that the common, device,
    /// notification and ISR configurations are there, resets the device,
    /// and reads its notification multiplier and the notification offsets
    /// of its queues before the first of size zero, at most 16. The
    /// platform reads and writes the device: `subsystem_id` reads a
    /// device's subsystem id, `read_capabilities` its capability list,
    /// `write` performs a write of the common configuration,
    /// `notify_multiplier` reads the multiplier that follows the
    /// notification capability, `queue_size` and `queue_notify_offset`
    /// select a queue and read its size or its offset. No device of the
    /// type gives `Ok(None)`.
    pub fn bring_up<
        S: Fn(Device) -> u16,
        C: Fn(Device) -> Vec<CapabilityInfo>,
        W: Fn(ConfigWrite),
        M: Fn(CapabilityInfo) -> u32,
        Z: Fn(u16) -> u16,
        O: Fn(u16) -> u16,
    >(
        pci: &PCIController,
        device_type: DeviceType,
        subsystem_id: S,
        read_capabilities: C,
        write: &W,
        notify_multiplier: M,
        queue_size: Z,
        queue_notify_offset: O,
    ) -> (r: Result<Option<(Device, VirtioDevice)>, BringUpError>)
        requires
            pci.spec_devices() is Some,
            forall|d: Device| subsystem_id.requires((d,)),
            forall|d: Device| read_capabilities.requires((d,)),
            forall|w: ConfigWrite| write.requires((w,)),
            forall|c: CapabilityInfo| notify_multiplier.requires((c,)),
            forall|i: u16| queue_size.requires((i,)),
            forall|i: u16| queue_notify_offset.requires((i,)),
        ensures
            brought_up(
                pci.spec_devices()->0,
                device_type,
                subsystem_id,
                read_capabilities,
                *write,
                notify_multiplier,
                queue_size,
                queue_notify_offset,
                r,
            ),
    {
        let pci_dev = match find_pci_device(pci, device_type, subsystem_id) {
            Some(d) => d,
            None => return Ok(None),
        };
        let ghost devs = pci.spec_devices()->0;
        let ghost i0 = choose|i: int| 0 <= i < devs.len() && devs[i] == pci_dev && virtio_tested(subsystem_id, pci_dev, device_type, true)
            && forall|j: int| 0 <= j < i ==> virtio_tested(subsystem_id, devs[j], device_type, false);
        assert(first_virtio(devs, subsystem_id, device_type, i0) && devs[i0] == pci_dev);
        let capabilities = read_capabilities(pci_dev);
        let ghost caps0 = capabilities;
        let mut dev = VirtioDevice::try_new(capabilities);
        match dev.first_missing_capability() {
            Some(t) => return Err(BringUpError::MissingCapability(t)),
            None => {},
        }
        let cap = match dev.capability(CapabilityType::Notify) {
            Some(c) => c,
            None => return Err(BringUpError::MissingCapability(CapabilityType::Notify)),
        };
        let reset = dev.reset();
        write(reset);
        let multiplier = notify_multiplier(cap);
        let (sizes, offsets) = read_queue_notify_offsets(&queue_size, &queue_notify_offset);
        dev.init_notifications(multiplier, &sizes, &offsets);
        proof {
            assert(dev.notify_offsets@ =~= offsets@);
        }
        Ok(Some((pci_dev, dev)))
    }
}

} // verus!
