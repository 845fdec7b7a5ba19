//! The VirtIO block device: its request layout and how a read request is
//! handed to the device through the first virtqueue.

use vstd::prelude::*;
use super::virtq::{free_indices, AvailableHeader, BufferFlags, VirtQueue, VirtQueueDesc};
use super::{
    brought_up, cw, feature_plan, features_accepted, init_writes, is_zeroed, queue_setup_writes, queues_taken, taken_from, BringUpError, CapabilityInfo, ConfigWrite,
    DeviceStatus, DeviceType, VirtioDevice, CFG_DEVICE_STATUS, CFG_QUEUE_SELECT,
};
use crate::pci::{Device, PCIController};

verus! {

/// Bytes of the request header: type, priority and sector.
pub const HEADER_SIZE: usize = 16;
/// Bytes of sector data in a request.
pub const CONTENT_SIZE: usize = 0x200;
/// Bytes of the status footer.
pub const FOOTER_SIZE: usize = 1;

/// Request types.
pub const REQUEST_READ: u32 = 0;
pub const REQUEST_WRITE: u32 = 1;
pub const REQUEST_FLUSH: u32 = 4;

/// The status byte before the device has answered.
pub const STATUS_PENDING: u8 = 0xff;

/// A block request as the device reads and writes it.
#[derive(Copy, Clone)]
pub struct BlockRequest {
    /// 0: read, 1: write, 4: flush
    pub type_: u32,
    /// IO priority, unused in 1.0 spec
    pub ioprio: u32,
    /// sector number
    pub sector: u64,
    pub data: [u8; 0x200],
    /// 0: ok, 1: error, 2: unsupported
    pub status: u8,
}

/// The request is of `type_` for `sector`, with zeroed data and a pending
/// status.
pub open spec fn fresh_request(r: BlockRequest, type_: u32, sector: u64) -> bool {
    &&& r.type_ == type_
    &&& r.ioprio == 0
    &&& r.sector == sector
    &&& forall|i: int| 0 <= i < 0x200 ==> r.data[i] == 0
    &&& r.status == STATUS_PENDING
}

impl BlockRequest {
    pub fn new_read(sector: u64) -> (r: BlockRequest)
        ensures
            fresh_request(r, REQUEST_READ, sector),
    {
        BlockRequest { type_: REQUEST_READ, ioprio: 0, sector, data: [0; 0x200], status: STATUS_PENDING }
    }

    pub fn new_write(sector: u64) -> (r: BlockRequest)
        ensures
            fresh_request(r, REQUEST_WRITE, sector),
    {
        BlockRequest { type_: REQUEST_WRITE, ..Self::new_read(sector) }
    }

    pub fn new_flush() -> (r: BlockRequest)
        ensures
            fresh_request(r, REQUEST_FLUSH, 0),
    {
        BlockRequest { type_: REQUEST_FLUSH, ..Self::new_read(0) }
    }

    /// The sector data as a vector.
    pub fn data_vec(&self) -> (r: Vec<u8>)
        ensures
            r@ == self.data@,
    {
        let mut r: Vec<u8> = Vec::new();
        let mut i: usize = 0;
        while i < CONTENT_SIZE
            invariant
                i <= CONTENT_SIZE,
                r@ == self.data@.take(i as int),
            decreases CONTENT_SIZE - i,
        {
            r.push(self.data[i]);
            i = i + 1;
            proof {
                assert(r@ =~= self.data@.take(i as int));
            }
        }
        proof {
            assert(self.data@.take(CONTENT_SIZE as int) =~= self.data@);
        }
        r
    }
}

/// What the status byte of a submitted request says.
#[derive(Debug, Clone, Copy, PartialEq, Eq, Structural)]
pub enum ReadPoll {
    /// The device has not answered yet.
    Pending,
    /// The data is in the request.
    Done,
    /// The device failed the request with this status.
    Failed(u8),
}

/// Reads the status byte of a submitted request.
pub fn poll_status(status: u8) -> (r: ReadPoll)
    ensures
        status == STATUS_PENDING ==> r == ReadPoll::Pending,
        status == 0 ==> r == ReadPoll::Done,
        status != STATUS_PENDING && status != 0 ==> r == ReadPoll::Failed(status),
{
    if status == STATUS_PENDING {
        ReadPoll::Pending
    } else if status == 0 {
        ReadPoll::Done
    } else {
        ReadPoll::Failed(status)
    }
}

/// The queue can take a request: it covers its memory, its descriptors
/// can be addressed, and it is not empty.
pub open spec fn queue_usable(q: VirtQueue) -> bool {
    &&& q.wf()
    &&& 0 < q.qsize() <= 4096
}

/// The descriptor the device reads the request header from.
pub open spec fn header_desc(req_addr: u64, next: u16) -> VirtQueueDesc {
    VirtQueueDesc {
        address: req_addr,
        length: HEADER_SIZE as u32,
        flags: BufferFlags { bits: BufferFlags::NEXT },
        next,
    }
}

/// The descriptor the device writes the data and status to.
pub open spec fn data_desc(req_addr: u64) -> VirtQueueDesc {
    VirtQueueDesc {
        address: (req_addr + HEADER_SIZE) as u64,
        length: (CONTENT_SIZE + FOOTER_SIZE) as u32,
        flags: BufferFlags { bits: BufferFlags::WRITE },
        next: 0,
    }
}

/// `b` is `a` with a read request at `req_addr` made available through
/// the free descriptors `d0` and `d1`.
pub open spec fn read_submitted(a: VirtQueue, b: VirtQueue, req_addr: u64, d0: u16, d1: u16) -> bool {
    let h = a.spec_available_header();
    &&& b.wf()
    &&& b.qsize() == a.qsize()
    &&& b.spec_addr() == a.spec_addr()
    &&& b.desc(d0 as int) == header_desc(req_addr, d1)
    &&& b.desc(d1 as int) == data_desc(req_addr)
    &&& b.spec_available_item((h.index % a.qsize()) as int) == d0
    &&& b.spec_available_header() == AvailableHeader { flags: h.flags, index: h.index.wrapping_add(1) }
    &&& forall|i: int| 0 <= i < a.qsize() && i != d0 && i != d1 ==> b.desc(i) == a.desc(i)
    &&& forall|i: int| 0 <= i < a.qsize() && i != h.index % a.qsize() ==> b.spec_available_item(i) == a.spec_available_item(i)
}

/// `q` is the block device's one queue, set up: of the size that
/// `queue_size` read for queue 0, in the zeroed DMA block that
/// `queue_address` handed out for it, and handed to the device with
/// `write` (queue 0 selected, its areas written, the queue enabled).
pub open spec fn block_queue_set_up<W: Fn(ConfigWrite), Z: Fn(u16) -> u16, A: Fn(u16) -> usize>(
    q: VirtQueue,
    write: W,
    queue_size: Z,
    queue_address: A,
) -> bool {
    let writes = seq![cw(CFG_QUEUE_SELECT, 0, 2)] + queue_setup_writes(q.spec_addr() as u64, q.qsize());
    &&& q.wf()
    &&& queue_size.ensures((0u16,), q.qsize())
    &&& queue_address.ensures((0u16,), q.spec_addr())
    &&& is_zeroed(q.mem())
    &&& forall|i: int| 0 <= i < writes.len() ==> write.ensures((#[trigger] writes[i],), ())
}

/// A VirtIO block device and its queues.
pub struct VirtioBlock {
    pub device: VirtioDevice,
    pub queues: Vec<VirtQueue>,
}

impl VirtioBlock {
    /// Brings up the first VirtIO block device, as
    /// `VirtioDevice::bring_up` does, and acknowledges it (status
    /// ACKNOWLEDGE written); its queues are set up later. `Ok(None)` where
    /// there is no block device.
    pub fn try_new<
        S: Fn(Device) -> u16,
        C: Fn(Device) -> Vec<CapabilityInfo>,
        W: Fn(ConfigWrite),
        M: Fn(CapabilityInfo) -> u32,
        Z: Fn(u16) -> u16,
        O: Fn(u16) -> u16,
    >(
        pci: &PCIController,
        subsystem_id: S,
        read_capabilities: C,
        write: W,
        notify_multiplier: M,
        queue_size: Z,
        queue_notify_offset: O,
    ) -> (r: Result<Option<VirtioBlock>, BringUpError>)
        requires
            pci.spec_devices() is Some,
            forall|d: Device| subsystem_id.requires((d,)),
            forall|d: Device| read_capabilities.requires((d,)),
            forall|w: ConfigWrite| write.requires((w,)),
            forall|c: CapabilityInfo| notify_multiplier.requires((c,)),
            forall|i: u16| queue_size.requires((i,)),
            forall|i: u16| queue_notify_offset.requires((i,)),
        ensures
            ({
                let devs = pci.spec_devices()->0;
                match r {
                    Ok(Some(blk)) => {
                        &&& exists|d: Device| #[trigger] brought_up(
                            devs,
                            DeviceType::BlockDevice,
                            subsystem_id,
                            read_capabilities,
                            write,
                            notify_multiplier,
                            queue_size,
                            queue_notify_offset,
                            Ok(Some((d, blk.device))),
                        )
                        &&& write.ensures((cw(CFG_DEVICE_STATUS, DeviceStatus::ACKNOWLEDGE as u64, 1),), ())
                        &&& blk.queues@.len() == 0
                    },
                    Ok(None) => brought_up(
                        devs,
                        DeviceType::BlockDevice,
                        subsystem_id,
                        read_capabilities,
                        write,
                        notify_multiplier,
                        queue_size,
                        queue_notify_offset,
                        Ok(None),
                    ),
                    Err(e) => brought_up(
                        devs,
                        DeviceType::BlockDevice,
                        subsystem_id,
                        read_capabilities,
                        write,
                        notify_multiplier,
                        queue_size,
                        queue_notify_offset,
                        Err(e),
                    ),
                }
            }),
    {
        let found = VirtioDevice::bring_up(
            pci,
            DeviceType::BlockDevice,
            subsystem_id,
            read_capabilities,
            &write,
            notify_multiplier,
            queue_size,
            queue_notify_offset,
        );
        match found {
            Ok(Some((d, device))) => {
                let ack = device.set_status(DeviceStatus { bits: DeviceStatus::ACKNOWLEDGE });
                write(ack);
                let ghost dev0 = device;
                let blk = VirtioBlock { device, queues: Vec::new() };
                assert(blk.device == dev0);
                Ok(Some(blk))
            },
            Ok(None) => Ok(None),
            Err(e) => Err(e),
        }
    }

    /// Initializes the device: status STATE_LOADED, then feature
    /// negotiation on the feature words that `read_feature` reads (it
    /// selects a word and reads it), and, where the device accepted the
    /// features, its one queue set up in the DMA block that
    /// `queue_address` hands out, and status STATE_READY. The device must
    /// report exactly one queue: queue 0 of nonzero size, queue 1 of size
    /// zero. Answers whether the device is ready.
    pub fn init<W: Fn(ConfigWrite), F: Fn(u32) -> u32, R: Fn() -> u8, Z: Fn(u16) -> u16, A: Fn(u16) -> usize>(
        &mut self,
        write: &W,
        read_feature: &F,
        read_status: &R,
        queue_size: &Z,
        queue_address: &A,
    ) -> (r: bool)
        requires
            forall|w: ConfigWrite| write.requires((w,)),
            forall|i: u32| read_feature.requires((i,)),
            read_status.requires(()),
            forall|i: u16| queue_size.requires((i,)),
            forall|i: u16| queue_address.requires((i,)),
            forall|i: u16, a: usize| #[trigger] queue_address.ensures((i,), a) ==> a + 0x20_0000 <= u64::MAX,
            forall|s: u16| #[trigger] queue_size.ensures((0u16,), s) ==> s != 0,
            forall|s: u16| #[trigger] queue_size.ensures((1u16,), s) ==> s == 0,
        ensures
            final(self).device == old(self).device,
            write.ensures((cw(CFG_DEVICE_STATUS, DeviceStatus::STATE_LOADED as u64, 1),), ()),
            exists|lo: u32, hi: u32|
                #![trigger read_feature.ensures((0u32,), lo), read_feature.ensures((1u32,), hi)]
                read_feature.ensures((0u32,), lo) && read_feature.ensures((1u32,), hi) && match feature_plan(seq![lo, hi]) {
                    None => !r,
                    Some(p) => {
                        &&& forall|i: int| 0 <= i < p.len() ==> write.ensures((#[trigger] p[i],), ())
                        &&& exists|s: u8| #[trigger] read_status.ensures((), s) && r == features_accepted(s)
                    },
                },
            !r ==> final(self).queues == old(self).queues,
            r ==> final(self).queues@.len() == 1 && block_queue_set_up(final(self).queues@[0], *write, *queue_size, *queue_address)
                && write.ensures((cw(CFG_DEVICE_STATUS, DeviceStatus::STATE_READY as u64, 1),), ()),
    {
        let loaded = self.device.set_status(DeviceStatus { bits: DeviceStatus::STATE_LOADED });
        write(loaded);
        let lo = read_feature(0);
        let hi = read_feature(1);
        let features = self.device.features(lo, hi);
        if !self.device.set_features(features, write, read_status) {
            return false;
        }
        let s0 = queue_size(0);
        let s1 = queue_size(1);
        let a0 = queue_address(0);
        let sizes: Vec<u16> = vec![s0, s1];
        let addresses: Vec<usize> = vec![a0];
        proof {
            assert(taken_from(sizes@, 1) == 1);
            assert(queues_taken(sizes@) == 1);
        }
        let (queues, writes) = self.device.init_queues(&sizes, &addresses);
        let mut i: usize = 0;
        while i < writes.len()
            invariant
                i <= writes@.len(),
                forall|w: ConfigWrite| write.requires((w,)),
                forall|k: int| 0 <= k < i ==> write.ensures((#[trigger] writes@[k],), ()),
            decreases writes@.len() - i,
        {
            write(writes[i]);
            i = i + 1;
        }
        self.queues = queues;
        let ready = self.device.set_status(DeviceStatus { bits: DeviceStatus::STATE_READY });
        write(ready);
        proof {
            let q = self.queues@[0];
            let w = seq![cw(CFG_QUEUE_SELECT, 0, 2)] + queue_setup_writes(q.spec_addr() as u64, q.qsize());
            assert(init_writes(sizes@, addresses@, 0) =~= Seq::<ConfigWrite>::empty());
            assert(writes@ =~= w);
        }
        true
    }

    /// Sector size in bytes
    pub fn sector_size(&self) -> (r: u64)
        ensures
            r == 0x200,
    {
        0x200
    }

    /// Hands a read request, stored at physical address `req_addr`, to the
    /// device through the first queue: the header in the first two free
    /// descriptors' first, the data and status in the second, chained, and
    /// the first published in the available ring. `None` when fewer than
    /// two descriptors are free.
    pub fn submit_read(&mut self, req_addr: u64) -> (r: Option<(u16, u16)>)
        requires
            old(self).queues@.len() >= 1,
            queue_usable(old(self).queues@[0]),
            req_addr + HEADER_SIZE <= u64::MAX,
        ensures
            final(self).device == old(self).device,
            final(self).queues@.len() == old(self).queues@.len(),
            forall|i: int| 1 <= i < old(self).queues@.len() ==> final(self).queues@[i] == old(self).queues@[i],
            ({
                let q0 = old(self).queues@[0];
                let free = free_indices(q0.mem(), q0.qsize() as int);
                match r {
                    Some((d0, d1)) => free.len() >= 2 && d0 == free[0] && d1 == free[1]
                        && read_submitted(q0, final(self).queues@[0], req_addr, d0, d1),
                    None => free.len() < 2 && final(self).queues@[0] == q0,
                }
            }),
    {
        let ghost q0 = self.queues@[0];
        let mut queue = self.queues.remove(0);
        let found = queue.find_free_n(2);
        let indices = match found {
            Some(v) => v,
            None => {
                self.queues.insert(0, queue);
                proof {
                    assert(self.queues@ =~= old(self).queues@);
                }
                return None;
            },
        };
        let d0 = indices[0];
        let d1 = indices[1];
        proof {
            lemma_free_indices_distinct(q0.mem(), q0.qsize() as int);
        }
        let mut desc0 = VirtQueueDesc::new_read(req_addr, HEADER_SIZE as u32);
        let desc1 = VirtQueueDesc::new_write(req_addr + HEADER_SIZE as u64, (CONTENT_SIZE + FOOTER_SIZE) as u32);
        desc0.chain(d1);
        assert(0u16 | BufferFlags::NEXT == BufferFlags::NEXT) by (bit_vector);
        let ghost qa = queue;
        queue.set_desc_at(d0, desc0);
        let ghost qb = queue;
        queue.set_desc_at(d1, desc1);
        let ghost qc = queue;
        proof {
            let n = q0.qsize() as int;
            assert forall|i: int| 0 <= i < n && i != d0 && i != d1 implies #[trigger] qc.desc(i) == q0.desc(i) by {
                lemma_desc_unchanged(qa.mem(), qb.mem(), i, d0 as int);
                lemma_desc_unchanged(qb.mem(), qc.mem(), i, d1 as int);
            }
            lemma_desc_unchanged(qb.mem(), qc.mem(), d0 as int, d1 as int);
            assert forall|j: int| n * 16 <= j < qc.mem().len() implies #[trigger] qc.mem()[j] == q0.mem()[j] by {
            }
            assert(qc.spec_available_header() == q0.spec_available_header());
            assert forall|i: int| 0 <= i < n implies #[trigger] qc.spec_available_item(i) == q0.spec_available_item(i) by {
            }
        }
        let mut ah = queue.available_header();
        let index = ah.index % queue.queue_size();
        queue.set_available_item(index, d0);
        ah.index = ah.index.wrapping_add(1);
        queue.set_available_header(ah);
        proof {
            let qd = queue;
            let n = q0.qsize() as int;
            assert forall|i: int| 0 <= i < n implies #[trigger] qd.desc(i) == qc.desc(i) by {
                lemma_desc_same(qc.mem(), qd.mem(), i);
            }
        }
        self.queues.insert(0, queue);
        proof {
            assert forall|i: int| 1 <= i < old(self).queues@.len() implies self.queues@[i] == old(self).queues@[i] by {
            }
        }
        Some((d0, d1))
    }
}

/// Free descriptor indices are increasing and below `n`.
proof fn lemma_free_indices_distinct(mem: Seq<u8>, n: int)
    requires
        n <= 0x1_0000,
    ensures
        forall|i: int, j: int| 0 <= i < j < free_indices(mem, n).len() ==> #[trigger] free_indices(mem, n)[i] < #[trigger] free_indices(mem, n)[j],
        forall|i: int| 0 <= i < free_indices(mem, n).len() ==> 0 <= #[trigger] free_indices(mem, n)[i] < n,
    decreases n,
{
    if n > 0 {
        lemma_free_indices_distinct(mem, n - 1);
        let p = free_indices(mem, n - 1);
        let f = free_indices(mem, n);
        if super::virtq::spec_desc(mem, n - 1).length == 0 {
            assert(f == p.push((n - 1) as u16));
            assert forall|i: int, j: int| 0 <= i < j < f.len() implies #[trigger] f[i] < #[trigger] f[j] by {
                if j == f.len() - 1 {
                    assert(f[i] == p[i]);
                } else {
                    assert(f[i] == p[i] && f[j] == p[j]);
                }
            }
            assert forall|i: int| 0 <= i < f.len() implies 0 <= #[trigger] f[i] < n by {
                if i < p.len() {
                    assert(f[i] == p[i]);
                }
            }
        }
    }
}

/// A descriptor whose bytes are the same is the same.
proof fn lemma_desc_same(a: Seq<u8>, b: Seq<u8>, i: int)
    requires
        forall|j: int| i * 16 <= j < i * 16 + 16 ==> #[trigger] b[j] == a[j],
    ensures
        super::virtq::spec_desc(b, i) == super::virtq::spec_desc(a, i),
{
    assert forall|k: int| 0 <= k < 16 implies #[trigger] b[i * 16 + k] == a[i * 16 + k] by {}
}

/// A descriptor whose slot lies outside a 16-byte slot that changed is
/// unchanged.
proof fn lemma_desc_unchanged(a: Seq<u8>, b: Seq<u8>, i: int, k: int)
    requires
        i != k,
        0 <= i,
        0 <= k,
        forall|j: int| 0 <= j < b.len() && !(k * 16 <= j < k * 16 + 16) ==> b[j] == a[j],
        a.len() == b.len(),
        (i + 1) * 16 <= a.len(),
    ensures
        super::virtq::spec_desc(b, i) == super::virtq::spec_desc(a, i),
{
    lemma_desc_same(a, b, i);
}

/// The reads of `data`, one per sector from `sector` on, each with the
/// bytes it gave.
pub open spec fn reads_from(sector: u64, data: Seq<Vec<u8>>) -> Seq<(u64, Seq<u8>)> {
    Seq::new(data.len(), |i: int| ((sector + i) as u64, data[i]@))
}

/// A disk driver.
pub trait BlockDevice {
    /// The reads made so far: each sector asked for, with the bytes that
    /// the read gave, oldest first. Each driver defines it.
    closed spec fn read_log(&self) -> Seq<(u64, Seq<u8>)> {
        arbitrary()
    }

    /// Returns success status
    fn init(&mut self) -> bool;

    /// Sector size in bytes
    fn sector_size(&self) -> u64;

    /// Capacity in sectors
    fn capacity_sectors(&mut self) -> u64;

    /// Reads one sector; the read is logged with what it gave.
    fn read(&mut self, sector: u64) -> (r: Vec<u8>)
        ensures
            final(self).read_log() == old(self).read_log().push((sector, r@)),
    ;

    fn write(&mut self, sector: u64, data: Vec<u8>);
}

/// The disk driver in use, if any.
pub struct DiskController<D: BlockDevice> {
    pub driver: Option<D>,
}

impl<D: BlockDevice> DiskController<D> {
    pub fn new() -> (r: Self)
        ensures
            r.driver is None,
    {
        DiskController { driver: None }
    }

    /// Installs the driver that was found, if any: it stays installed
    /// where its initialization succeeds, and the answer says whether one
    /// is installed.
    pub fn init(&mut self, found: Option<D>) -> (ok: bool)
        ensures
            ok == final(self).driver is Some,
            found is None ==> !ok,
    {
        self.driver = found;
        let ok = match &mut self.driver {
            Some(driver) => driver.init(),
            None => false,
        };
        if !ok {
            self.driver = None;
        }
        ok
    }

    /// Reads `count` sectors from `sector` on, one by one, in order: entry
    /// `i` is what the driver's read of sector `sector + i` gave.
    pub fn read(&mut self, sector: u64, count: u64) -> (r: Vec<Vec<u8>>)
        requires
            old(self).driver is Some,
            sector + count <= u64::MAX,
        ensures
            r@.len() == count,
            final(self).driver is Some,
            final(self).driver->0.read_log() == old(self).driver->0.read_log() + reads_from(sector, r@),
    {
        let mut driver = match self.driver.take() {
            Some(d) => d,
            None => unreached(),
        };
        let ghost log0 = driver.read_log();
        let mut result: Vec<Vec<u8>> = Vec::new();
        let mut offset: u64 = 0;
        while offset < count
            invariant
                offset <= count,
                sector + count <= u64::MAX,
                result@.len() == offset,
                driver.read_log() == log0 + reads_from(sector, result@),
            decreases count - offset,
        {
            let data = driver.read(sector + offset);
            let ghost before = result@;
            result.push(data);
            proof {
                assert(reads_from(sector, result@) =~= reads_from(sector, before).push(((sector + offset) as u64, data@)));
                assert(log0 + reads_from(sector, result@) =~= (log0 + reads_from(sector, before)).push(
                    ((sector + offset) as u64, data@),
                ));
            }
            offset = offset + 1;
        }
        self.driver = Some(driver);
        result
    }
}

} // verus!
