//! VirtIO split virtqueues: the descriptor table, the available ring and
//! the used ring, laid out in one page-aligned block of DMA memory.

use vstd::prelude::*;
use crate::bytes::{le_u16, le_u32, le_u64, read_u16, read_u32, read_u64, write_u16, write_u32, write_u64};

verus! {

/// Size of a memory page.
pub const PAGE_SIZE: u64 = 4096;

/// `addr` rounded up to a multiple of the page size.
pub open spec fn spec_page_align_up(addr: int) -> int {
    ((addr + PAGE_SIZE - 1) / PAGE_SIZE as int) * PAGE_SIZE
}

/// Align upwards to page size
pub fn page_align_up(addr: u64) -> (r: u64)
    requires
        addr + PAGE_SIZE - 1 <= u64::MAX,
    ensures
        r == spec_page_align_up(addr as int),
{
    let x = addr + (PAGE_SIZE - 1);
    let r = x & !4095u64;
    assert(x & !4095u64 == (x / 4096) * 4096) by (bit_vector);
    r
}

/// Descriptor flags.
#[derive(Debug, Copy, Clone, PartialEq, Eq)]
pub struct BufferFlags {
    pub bits: u16,
}

impl BufferFlags {
    /// The buffer continues in the next field
    pub const NEXT: u16 = 0b00000001;
    /// Buffer is write-only FOR THE DEVICE (clear for read-only)
    pub const WRITE: u16 = 0b00000010;
    /// Buffer contains additional buffer addresses
    pub const INDIRECT: u16 = 0b00000100;
}

/// Size of a descriptor in the table.
pub const DESC_SIZE: u64 = 16;

#[derive(Debug, Copy, Clone)]
pub struct VirtQueueDesc {
    /// Address of the buffer on the guest machine (physical address)
    pub address: u64,
    /// Length of the buffer
    pub length: u32,
    /// Flags
    pub flags: BufferFlags,
    /// If flag is set, contains index of next buffer in chain
    pub next: u16,
}

impl VirtQueueDesc {
    /// A buffer the device reads.
    pub fn new_read(address: u64, length: u32) -> (d: VirtQueueDesc)
        ensures
            d.address == address,
            d.length == length,
            d.flags.bits == 0,
            d.next == 0,
    {
        VirtQueueDesc { address, length, flags: BufferFlags { bits: 0 }, next: 0 }
    }

    /// A buffer the device writes.
    pub fn new_write(address: u64, length: u32) -> (d: VirtQueueDesc)
        ensures
            d.address == address,
            d.length == length,
            d.flags.bits == BufferFlags::WRITE,
            d.next == 0,
    {
        VirtQueueDesc { flags: BufferFlags { bits: BufferFlags::WRITE }, ..Self::new_read(address, length) }
    }

    /// Links this buffer to the descriptor at `next_index`.
    pub fn chain(&mut self, next_index: u16)
        ensures
            final(self).address == old(self).address,
            final(self).length == old(self).length,
            final(self).flags.bits == old(self).flags.bits | BufferFlags::NEXT,
            final(self).next == next_index,
    {
        self.flags = BufferFlags { bits: self.flags.bits | BufferFlags::NEXT };
        self.next = next_index;
    }
}

#[derive(Debug, Copy, Clone)]
pub struct AvailableHeader {
    pub flags: u16,
    pub index: u16,
}

#[derive(Debug, Copy, Clone)]
pub struct AvailableItem {
    pub desc_index: u16,
}

#[derive(Debug, Copy, Clone)]
pub struct AvailableFooter {
    pub used_event: u16,
}

#[derive(Debug, Copy, Clone)]
pub struct UsedHeader {
    pub flags: u32,
    pub index: u32,
}

#[derive(Debug, Copy, Clone)]
pub struct UsedItem {
    pub index: u32,
    pub length: u32,
}

#[derive(Debug, Copy, Clone)]
pub struct UsedFooter {
    pub available_event: u16,
}

/// Sizes of the descriptor table, the available ring and the used ring.
pub open spec fn spec_calc_sizes(queue_size: u16) -> (int, int, int) {
    (queue_size * 16, 6 + queue_size * 2, 6 + queue_size * 8)
}

/// Bytes the whole queue takes: the three parts, page-aligned.
pub open spec fn spec_calc_size(queue_size: u16) -> int {
    let (a, b, c) = spec_calc_sizes(queue_size);
    spec_page_align_up(a + b + c)
}

/// The descriptor stored at `i` in `mem`.
pub open spec fn spec_desc(mem: Seq<u8>, i: int) -> VirtQueueDesc {
    let off = i * 16;
    VirtQueueDesc {
        address: le_u64(mem, off) as u64,
        length: le_u32(mem, off + 8) as u32,
        flags: BufferFlags { bits: le_u16(mem, off + 12) as u16 },
        next: le_u16(mem, off + 14) as u16,
    }
}

/// A virtqueue and the DMA memory block that holds it.
pub struct VirtQueue {
    memory: Vec<u8>,
    address: usize,
    queue_size: u16,
}

impl VirtQueue {
    /// The memory block covers the whole queue.
    pub open spec fn wf(&self) -> bool {
        self.mem().len() == spec_calc_size(self.qsize())
    }

    /// Number of descriptors.
    pub closed spec fn qsize(&self) -> u16 {
        self.queue_size
    }

    /// Whether the memory block covers the whole queue.
    pub fn is_wf(&self) -> (r: bool)
        ensures
            r == self.wf(),
    {
        self.memory.len() as u64 == VirtQueue::calc_size(self.queue_size)
    }

    /// Number of descriptors.
    pub fn queue_size(&self) -> (r: u16)
        ensures
            r == self.qsize(),
    {
        self.queue_size
    }

    /// The bytes of the queue's memory block.
    pub closed spec fn mem(&self) -> Seq<u8> {
        self.memory@
    }

    /// Physical address of the queue's memory block.
    pub closed spec fn spec_addr(&self) -> usize {
        self.address
    }

    /// The descriptor at `i`.
    pub open spec fn desc(&self, i: int) -> VirtQueueDesc {
        spec_desc(self.mem(), i)
    }

    /// Sizes of the descriptor table, the available ring and the used ring.
    pub fn calc_sizes(queue_size: u16) -> (r: (u64, u64, u64))
        ensures
            r.0 == spec_calc_sizes(queue_size).0,
            r.1 == spec_calc_sizes(queue_size).1,
            r.2 == spec_calc_sizes(queue_size).2,
    {
        let size_descriptors = queue_size as u64 * 16;
        let size_available = 6 + queue_size as u64 * 2;
        let size_used = 6 + queue_size as u64 * 8;
        (size_descriptors, size_available, size_used)
    }

    /// Bytes the whole queue takes, page-aligned.
    pub fn calc_size(queue_size: u16) -> (r: u64)
        ensures
            r == spec_calc_size(queue_size),
            r % PAGE_SIZE == 0,
            r >= spec_calc_sizes(queue_size).0 + spec_calc_sizes(queue_size).1
                + spec_calc_sizes(queue_size).2,
            r <= 0x20_0000,
    {
        let (a, b, c) = VirtQueue::calc_sizes(queue_size);
        let r = page_align_up(a + b + c);
        assert(r % PAGE_SIZE == 0 && r >= a + b + c && r <= a + b + c + 4095) by (nonlinear_arith)
            requires
                r == ((a + b + c + 4095) / 4096) * 4096,
        ;
        r
    }

    /// A zeroed queue of `queue_size` entries in the DMA block at `address`.
    pub fn new(queue_size: u16, address: usize) -> (q: VirtQueue)
        ensures
            q.wf(),
            q.qsize() == queue_size,
            q.spec_addr() == address,
            forall|i: int| 0 <= i < q.mem().len() ==> q.mem()[i] == 0,
    {
        let vq_size_bytes = VirtQueue::calc_size(queue_size);
        let mut memory: Vec<u8> = Vec::new();
        let mut i: u64 = 0;
        while i < vq_size_bytes
            invariant
                i <= vq_size_bytes,
                vq_size_bytes <= 0x20_0000,
                memory@.len() == i,
                forall|j: int| 0 <= j < i ==> memory@[j] == 0,
            decreases vq_size_bytes - i,
        {
            memory.push(0);
            i = i + 1;
        }
        VirtQueue { memory, address, queue_size }
    }

    pub fn addr(&self) -> (r: usize)
        ensures
            r == self.spec_addr(),
    {
        self.address
    }

    pub fn sizes(&self) -> (r: (u64, u64, u64))
        ensures
            r.0 == spec_calc_sizes(self.qsize()).0,
            r.1 == spec_calc_sizes(self.qsize()).1,
            r.2 == spec_calc_sizes(self.qsize()).2,
    {
        Self::calc_sizes(self.queue_size)
    }

    /// Zeroing means:
    /// * empty descriptors
    /// * empty available
    /// * empty used
    pub fn zero(&mut self)
        requires
            old(self).wf(),
        ensures
            final(self).wf(),
            final(self).qsize() == old(self).qsize(),
            final(self).spec_addr() == old(self).spec_addr(),
            forall|i: int| 0 <= i < final(self).mem().len() ==> final(self).mem()[i] == 0,
    {
        let n = VirtQueue::calc_size(self.queue_size) as usize;
        let mut i: usize = 0;
        while i < n
            invariant
                n == self.mem().len(),
                self.wf(),
                self.qsize() == old(self).qsize(),
                self.spec_addr() == old(self).spec_addr(),
                i <= n,
                forall|j: int| 0 <= j < i ==> self.mem()[j] == 0,
            decreases n - i,
        {
            self.memory.set(i, 0);
            i = i + 1;
        }
    }

    /// Get descriptor at index
    pub fn desc_at(&self, index: u16) -> (d: VirtQueueDesc)
        requires
            self.wf(),
            index < self.qsize(),
            index * 16 <= u16::MAX,
        ensures
            d == self.desc(index as int),
    {
        let off = (index * 16) as usize;
        let m = self.memory.as_slice();
        VirtQueueDesc {
            address: read_u64(m, off),
            length: read_u32(m, off + 8),
            flags: BufferFlags { bits: read_u16(m, off + 12) },
            next: read_u16(m, off + 14),
        }
    }

    /// Set descriptor at index
    pub fn set_desc_at(&mut self, index: u16, desc: VirtQueueDesc)
        requires
            old(self).wf(),
            index < old(self).qsize(),
            index * 16 <= u16::MAX,
        ensures
            final(self).wf(),
            final(self).qsize() == old(self).qsize(),
            final(self).spec_addr() == old(self).spec_addr(),
            final(self).desc(index as int) == desc,
            forall|i: int|
                0 <= i < final(self).mem().len() && !(index * 16 <= i < index * 16 + 16)
                    ==> final(self).mem()[i] == old(self).mem()[i],
    {
        let off = (index * 16) as usize;
        write_u64(&mut self.memory, off, desc.address);
        write_u32(&mut self.memory, off + 8, desc.length);
        write_u16(&mut self.memory, off + 12, desc.flags.bits);
        write_u16(&mut self.memory, off + 14, desc.next);
        proof {
            let m = self.mem();
            assert(le_u64(m, off as int) == desc.address);
            assert(le_u32(m, off + 8) == desc.length);
        }
    }

    /// The available ring's header.
    pub open spec fn spec_available_header(&self) -> AvailableHeader {
        let off = spec_calc_sizes(self.qsize()).0;
        AvailableHeader {
            flags: le_u16(self.mem(), off) as u16,
            index: le_u16(self.mem(), off + 2) as u16,
        }
    }

    /// The descriptor index in slot `i` of the available ring.
    pub open spec fn spec_available_item(&self, i: int) -> u16 {
        le_u16(self.mem(), spec_calc_sizes(self.qsize()).0 + 4 + 2 * i) as u16
    }

    /// Get available header
    pub fn available_header(&self) -> (h: AvailableHeader)
        requires
            self.wf(),
        ensures
            h == self.spec_available_header(),
    {
        let off = VirtQueue::calc_sizes(self.queue_size).0 as usize;
        let m = self.memory.as_slice();
        AvailableHeader { flags: read_u16(m, off), index: read_u16(m, off + 2) }
    }

    /// Set available header
    pub fn set_available_header(&mut self, header: AvailableHeader)
        requires
            old(self).wf(),
        ensures
            final(self).wf(),
            final(self).qsize() == old(self).qsize(),
            final(self).spec_addr() == old(self).spec_addr(),
            final(self).spec_available_header() == header,
            forall|i: int|
                0 <= i < old(self).qsize() * 16 ==> final(self).mem()[i] == old(self).mem()[i],
            forall|i: int|
                0 <= i < old(self).qsize() ==> final(self).spec_available_item(i)
                    == old(self).spec_available_item(i),
    {
        let off = VirtQueue::calc_sizes(self.queue_size).0 as usize;
        write_u16(&mut self.memory, off, header.flags);
        write_u16(&mut self.memory, off + 2, header.index);
    }

    /// Set available ring item
    pub fn set_available_item(&mut self, index: u16, desc_index: u16)
        requires
            old(self).wf(),
            index < old(self).qsize(),
        ensures
            final(self).wf(),
            final(self).qsize() == old(self).qsize(),
            final(self).spec_addr() == old(self).spec_addr(),
            final(self).spec_available_item(index as int) == desc_index,
            final(self).spec_available_header() == old(self).spec_available_header(),
            forall|i: int|
                0 <= i < old(self).qsize() * 16 ==> final(self).mem()[i] == old(self).mem()[i],
            forall|i: int|
                0 <= i < old(self).qsize() && i != index ==> final(self).spec_available_item(i)
                    == old(self).spec_available_item(i),
    {
        let off = (VirtQueue::calc_sizes(self.queue_size).0 + 4 + (index as u64) * 2) as usize;
        write_u16(&mut self.memory, off, desc_index);
    }

    /// Find a free descriptor
    pub fn find_free(&self) -> (r: Option<u16>)
        requires
            self.wf(),
            self.qsize() <= 4096,
        ensures
            match r {
                Some(i) => i < self.qsize() && self.desc(i as int).length == 0 && forall|j: int|
                    0 <= j < i ==> self.desc(j).length != 0,
                None => forall|j: int| 0 <= j < self.qsize() ==> self.desc(j).length != 0,
            },
    {
        let mut index: u16 = 0;
        while index < self.queue_size
            invariant
                self.wf(),
                self.qsize() <= 4096,
                index <= self.qsize(),
                forall|j: int| 0 <= j < index ==> self.desc(j).length != 0,
            decreases self.queue_size - index,
        {
            if self.desc_at(index).length == 0 {
                return Some(index);
            }
            index = index + 1;
        }
        None
    }

    /// Find n free descriptors. None if all not found.
    pub fn find_free_n(&self, n: usize) -> (r: Option<Vec<u16>>)
        requires
            self.wf(),
            self.qsize() <= 4096,
            n > 0,
        ensures
            match r {
                Some(v) => v@ == free_indices(self.mem(), self.qsize() as int).take(n as int)
                    && n <= free_indices(self.mem(), self.qsize() as int).len(),
                None => free_indices(self.mem(), self.qsize() as int).len() < n,
            },
    {
        let mut result: Vec<u16> = Vec::new();
        let mut index: u16 = 0;
        while index < self.queue_size
            invariant
                self.wf(),
                self.qsize() <= 4096,
                n > 0,
                index <= self.qsize(),
                result@ == free_indices(self.mem(), index as int),
                result@.len() < n,
            decreases self.queue_size - index,
        {
            proof {
                lemma_free_indices_step(self.mem(), index as int);
            }
            if self.desc_at(index).length == 0 {
                result.push(index);
                if result.len() == n {
                    proof {
                        lemma_free_indices_prefix(self.mem(), index + 1, self.queue_size as int);
                        assert(result@ =~= free_indices(self.mem(), self.qsize() as int).take(
                            n as int,
                        ));
                    }
                    return Some(result);
                }
            }
            index = index + 1;
        }
        None
    }
}

/// Indices below `n` whose descriptors have length zero, in order.
pub open spec fn free_indices(mem: Seq<u8>, n: int) -> Seq<u16>
    decreases n,
{
    if n <= 0 {
        Seq::empty()
    } else if spec_desc(mem, n - 1).length == 0 {
        free_indices(mem, n - 1).push((n - 1) as u16)
    } else {
        free_indices(mem, n - 1)
    }
}

proof fn lemma_free_indices_step(mem: Seq<u8>, n: int)
    requires
        n >= 0,
    ensures
        free_indices(mem, n + 1) == (if spec_desc(mem, n).length == 0 {
            free_indices(mem, n).push(n as u16)
        } else {
            free_indices(mem, n)
        }),
{
}

proof fn lemma_free_indices_prefix(mem: Seq<u8>, m: int, n: int)
    requires
        0 <= m <= n,
    ensures
        free_indices(mem, m).len() <= free_indices(mem, n).len(),
        free_indices(mem, n).take(free_indices(mem, m).len() as int) == free_indices(mem, m),
    decreases n - m,
{
    if m < n {
        lemma_free_indices_prefix(mem, m, n - 1);
        let a = free_indices(mem, m);
        let b = free_indices(mem, n - 1);
        if spec_desc(mem, n - 1).length == 0 {
            assert(b.push((n - 1) as u16).take(a.len() as int) =~= b.take(a.len() as int));
        }
    }
}

} // verus!
