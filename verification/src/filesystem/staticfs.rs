//! `/dev/staticfs`: the static filesystem stored on the disk after a file
//! list, each file in whole sectors, read by each client from its own
//! offset.

use vstd::prelude::*;
use crate::bytes::{le_u32, read_u32};
use super::result::{IoResult, IoResultPure};
use super::types::{CloseAction, FileClientId, Leafness, WaitFor};

verus! {

/// Bytes in a disk sector.
pub const SECTOR_SIZE: u64 = 0x200;

/// The number of whole sectors that hold `bytes` bytes.
pub open spec fn sectors_for(bytes: int) -> int {
    (bytes + 0x1ff) / 0x200
}

/// Sectors needed to hold `bytes` bytes.
pub fn to_sectors_round_up(bytes: u64) -> (r: u64)
    ensures
        r == sectors_for(bytes as int),
{
    bytes / 0x200 + if bytes % 0x200 == 0 { 0 } else { 1 }
}

/// The sector where each file starts: the files follow the file list,
/// which starts at `base_sector` and takes `list_sectors` sectors, one
/// after another in whole sectors.
pub open spec fn file_start(base_sector: int, list_sectors: int, sizes: Seq<u64>, i: int) -> int
    decreases i,
{
    if i <= 0 {
        base_sector + list_sectors
    } else {
        file_start(base_sector, list_sectors, sizes, i - 1) + sectors_for(sizes[i - 1] as int)
    }
}

/// The start sector of each file whose size in bytes is in `sizes`.
pub fn file_positions(base_sector: u32, list_sectors: u32, sizes: &Vec<u64>) -> (r: Vec<u32>)
    requires
        file_start(base_sector as int, list_sectors as int, sizes@, sizes@.len() as int) <= u32::MAX,
    ensures
        r@.len() == sizes@.len(),
        forall|i: int| 0 <= i < r@.len() ==> r@[i] == file_start(base_sector as int, list_sectors as int, sizes@, i),
{
    let mut result: Vec<u32> = Vec::new();
    proof {
        lemma_file_start_monotone(base_sector as int, list_sectors as int, sizes@, 0, sizes@.len() as int);
    }
    let mut current: u32 = base_sector + list_sectors;
    let mut i: usize = 0;
    while i < sizes.len()
        invariant
            i <= sizes@.len(),
            current == file_start(base_sector as int, list_sectors as int, sizes@, i as int),
            file_start(base_sector as int, list_sectors as int, sizes@, sizes@.len() as int) <= u32::MAX,
            result@.len() == i,
            forall|k: int| 0 <= k < i ==> result@[k] == file_start(base_sector as int, list_sectors as int, sizes@, k),
        decreases sizes@.len() - i,
    {
        result.push(current);
        proof {
            lemma_file_start_monotone(base_sector as int, list_sectors as int, sizes@, i + 1, sizes@.len() as int);
        }
        let n = to_sectors_round_up(sizes[i]);
        current = current + n as u32;
        i = i + 1;
    }
    result
}

proof fn lemma_file_start_monotone(base: int, list: int, sizes: Seq<u64>, i: int, j: int)
    requires
        0 <= i <= j,
    ensures
        file_start(base, list, sizes, i) <= file_start(base, list, sizes, j),
    decreases j - i,
{
    if i < j {
        lemma_file_start_monotone(base, list, sizes, i, j - 1);
    }
}

/// The value the boot sector holds where no static filesystem was put on
/// the disk.
pub const MISSING_MARKER: u32 = 0xd7cafed7;

/// The sector where the file list starts, from the little-endian word at
/// `position` of the boot sector `mbr`.
pub fn find_file_list(mbr: &[u8], position: usize) -> (r: u32)
    requires
        position + 4 <= mbr@.len(),
    ensures
        r == le_u32(mbr@, position as int),
{
    read_u32(mbr, position)
}

/// Why the file list header was refused.
#[derive(Debug, Clone, Copy, PartialEq, Eq, Structural)]
pub enum HeaderError {
    /// The file list is not there.
    Missing,
    /// The magic number is not the expected one.
    IncorrectMagic,
    /// The version is not the supported one.
    IncorrectVersion,
}

/// The size in bytes of the file list's body, from its 16-byte header
/// `header`, after checking the magic number and the version; and that
/// the list is there at all, from its start sector.
pub fn load_header(base_sector: u32, header: &[u8], magic: u32, version: u32) -> (r: Result<u32, HeaderError>)
    requires
        header@.len() >= 16,
    ensures
        base_sector == MISSING_MARKER ==> r == Err::<u32, HeaderError>(HeaderError::Missing),
        base_sector != MISSING_MARKER && le_u32(header@, 0) != magic ==> r == Err::<u32, HeaderError>(HeaderError::IncorrectMagic),
        base_sector != MISSING_MARKER && le_u32(header@, 0) == magic && le_u32(header@, 4) != version
            ==> r == Err::<u32, HeaderError>(HeaderError::IncorrectVersion),
        base_sector != MISSING_MARKER && le_u32(header@, 0) == magic && le_u32(header@, 4) == version
            ==> r == Ok::<u32, HeaderError>(le_u32(header@, 8) as u32),
{
    if base_sector == MISSING_MARKER {
        return Err(HeaderError::Missing);
    }
    if read_u32(header, 0) != magic {
        return Err(HeaderError::IncorrectMagic);
    }
    if read_u32(header, 4) != version {
        return Err(HeaderError::IncorrectVersion);
    }
    Ok(read_u32(header, 8))
}

/// The read offsets of the clients of a file.
#[verifier::external_body]
pub struct OffsetMap {
    map: hashbrown::HashMap<FileClientId, usize>,
}

/// Each client's read offset.
pub uninterp spec fn offset_map_contents(m: OffsetMap) -> Map<FileClientId, usize>;

/// `hashbrown::HashMap::new`: no clients.
#[verifier::external_body]
fn offset_map_new() -> (r: OffsetMap)
    ensures
        offset_map_contents(r).dom().len() == 0,
        offset_map_contents(r).dom().finite(),
{
    OffsetMap { map: hashbrown::HashMap::new() }
}

/// `hashbrown::HashMap::get`, the value copied: the offset of `k`, if any.
#[verifier::external_body]
fn offset_map_get(m: &OffsetMap, k: &FileClientId) -> (r: Option<usize>)
    ensures
        r == (if offset_map_contents(*m).contains_key(*k) {
            Some(offset_map_contents(*m)[*k])
        } else {
            None
        }),
{
    m.map.get(k).copied()
}

/// `hashbrown::HashMap::insert`: `k` now has offset `v`.
#[verifier::external_body]
fn offset_map_insert(m: &mut OffsetMap, k: FileClientId, v: usize)
    ensures
        offset_map_contents(*final(m)) == offset_map_contents(*old(m)).insert(k, v),
{
    m.map.insert(k, v);
}

/// `hashbrown::HashMap::remove`: `k` has no offset any more.
#[verifier::external_body]
fn offset_map_remove(m: &mut OffsetMap, k: &FileClientId)
    ensures
        offset_map_contents(*final(m)) == offset_map_contents(*old(m)).remove(*k),
{
    m.map.remove(k);
}

/// A file of the static filesystem.
pub struct StaticFSLeaf {
    /// Sector on disk
    start_sector: u32,
    /// Size on disk, in bytes
    size_bytes: u64,
    /// Data, loaded when requested for the first time
    data: Option<Vec<u8>>,
    /// Readers and offsets to the data
    readers: OffsetMap,
}

impl StaticFSLeaf {
    pub closed spec fn spec_start_sector(&self) -> u32 {
        self.start_sector
    }

    pub closed spec fn spec_size_bytes(&self) -> u64 {
        self.size_bytes
    }

    /// The file's bytes, once loaded.
    pub closed spec fn spec_data(&self) -> Option<Seq<u8>> {
        match self.data {
            Some(d) => Some(d@),
            None => None,
        }
    }

    /// Each reader's offset into the data.
    pub closed spec fn spec_readers(&self) -> Map<FileClientId, usize> {
        offset_map_contents(self.readers)
    }

    /// The offset of `fc`: where it stopped, or the start.
    pub open spec fn offset_of(&self, fc: FileClientId) -> int {
        if self.spec_readers().contains_key(fc) {
            self.spec_readers()[fc] as int
        } else {
            0
        }
    }

    /// Offsets never pass the end of the loaded data.
    pub open spec fn wf(&self) -> bool {
        &&& forall|fc: FileClientId| #[trigger] self.spec_readers().contains_key(fc) ==> self.spec_data() is Some
            && self.spec_readers()[fc] <= self.spec_data()->0.len()
        &&& self.spec_data() is Some ==> self.spec_data()->0.len() <= usize::MAX
    }

    pub fn new(start_sector: u32, size_bytes: u64) -> (r: Self)
        ensures
            r.wf(),
            r.spec_start_sector() == start_sector,
            r.spec_size_bytes() == size_bytes,
            r.spec_data() is None,
            r.spec_readers().dom().len() == 0,
    {
        StaticFSLeaf { start_sector, size_bytes, data: None, readers: offset_map_new() }
    }

    pub fn leafness(&self) -> (r: Leafness)
        ensures
            r == Leafness::Leaf,
    {
        Leafness::Leaf
    }

    /// The sectors to read before the data is there: the first and how
    /// many; nothing once it is loaded.
    pub fn sectors_to_load(&self) -> (r: Option<(u64, u64)>)
        ensures
            self.spec_data() is Some ==> r is None,
            self.spec_data() is None ==> r == Some(
                (self.spec_start_sector() as u64, sectors_for(self.spec_size_bytes() as int) as u64),
            ),
    {
        match &self.data {
            Some(_) => None,
            None => Some((self.start_sector as u64, to_sectors_round_up(self.size_bytes))),
        }
    }

    /// Keeps the file's bytes from the sectors read for it: as many of
    /// them as the file is long.
    pub fn load(&mut self, sectors: &Vec<Vec<u8>>)
        requires
            old(self).spec_data() is None,
            old(self).wf(),
        ensures
            final(self).wf(),
            final(self).spec_start_sector() == old(self).spec_start_sector(),
            final(self).spec_size_bytes() == old(self).spec_size_bytes(),
            final(self).spec_readers() == old(self).spec_readers(),
            final(self).spec_data() == Some(flatten(sectors@).take(min_len(flatten(sectors@).len() as int, old(self).spec_size_bytes() as int))),
    {
        let mut data: Vec<u8> = Vec::new();
        let mut i: usize = 0;
        let ghost all = flatten(sectors@);
        let ghost limit = min_len(all.len() as int, self.size_bytes as int);
        while i < sectors.len() && (data.len() as u64) < self.size_bytes
            invariant
                i <= sectors@.len(),
                all == flatten(sectors@),
                limit == min_len(all.len() as int, self.size_bytes as int),
                data@.len() <= self.size_bytes,
                data@ == all.take(data@.len() as int),
                data@.len() < self.size_bytes ==> data@.len() == flatten(sectors@.take(i as int)).len(),
                data@.len() <= flatten(sectors@.take(i as int)).len(),
            decreases sectors@.len() - i,
        {
            let sector = &sectors[i];
            let mut j: usize = 0;
            proof {
                lemma_flatten_take(sectors@, i as int);
            }
            while j < sector.len() && (data.len() as u64) < self.size_bytes
                invariant
                    j <= sector@.len(),
                    sector@ == sectors@[i as int]@,
                    i < sectors@.len(),
                    all == flatten(sectors@),
                    data@.len() <= self.size_bytes,
                    data@ == all.take(data@.len() as int),
                    data@.len() < self.size_bytes ==> data@.len() == flatten(sectors@.take(i as int)).len() + j,
                    data@.len() <= flatten(sectors@.take(i as int)).len() + j,
                    flatten(sectors@.take(i as int + 1)) == flatten(sectors@.take(i as int)) + sectors@[i as int]@,
                    flatten(sectors@.take(i as int + 1)).len() <= all.len(),
                    all.take(flatten(sectors@.take(i as int + 1)).len() as int) == flatten(sectors@.take(i as int + 1)),
                decreases sector@.len() - j,
            {
                proof {
                    let base = flatten(sectors@.take(i as int));
                    let k = data@.len() as int;
                    assert(all[k] == flatten(sectors@.take(i as int + 1))[k]);
                    assert(flatten(sectors@.take(i as int + 1))[k] == sector@[j as int]);
                }
                data.push(sector[j]);
                j = j + 1;
                proof {
                    assert(data@ =~= all.take(data@.len() as int));
                }
            }
            i = i + 1;
        }
        proof {
            lemma_flatten_take(sectors@, i as int);
            if data@.len() < self.size_bytes {
                assert(i == sectors@.len());
                assert(sectors@.take(i as int) =~= sectors@);
                assert(data@.len() == all.len());
            } else {
                assert(data@.len() == self.size_bytes);
            }
            assert(data@ == all.take(limit));
        }
        let _n = data.len();
        self.data = Some(data);
        proof {
            assert forall|fc: FileClientId| #[trigger] self.spec_readers().contains_key(fc) implies self.spec_data() is Some
                && self.spec_readers()[fc] <= self.spec_data()->0.len() by {
                assert(old(self).spec_readers().contains_key(fc));
            }
        }
    }

    /// Reads on from where `fc` stopped: as many bytes as are left and fit
    /// in `buf`, copied to its front.
    pub fn read(&mut self, fc: FileClientId, buf: &mut Vec<u8>) -> (r: IoResult<usize>)
        requires
            old(self).wf(),
            old(self).spec_data() is Some,
        ensures
            final(self).wf(),
            static_read_done(*old(self), *final(self), fc, old(buf)@, final(buf)@, r),
    {
        let offset = match offset_map_get(&self.readers, &fc) {
            Some(o) => o,
            None => 0,
        };
        proof {
            if self.spec_readers().contains_key(fc) {
                assert(self.spec_readers()[fc] <= self.spec_data()->0.len());
            }
        }
        let data = match &self.data {
            Some(d) => d,
            None => unreached(),
        };
        let left = data.len() - offset;
        let count = if left < buf.len() { left } else { buf.len() };
        let mut i: usize = 0;
        while i < count
            invariant
                i <= count,
                data@.len() <= usize::MAX,
                count <= buf@.len(),
                buf@.len() == old(buf)@.len(),
                offset + count <= data@.len(),
                forall|j: int| 0 <= j < i ==> buf@[j] == data@[offset + j],
                forall|j: int| i <= j < buf@.len() ==> buf@[j] == old(buf)@[j],
            decreases count - i,
        {
            buf.set(i, data[offset + i]);
            i = i + 1;
        }
        proof {
            assert(buf@.take(count as int) =~= data@.subrange(offset as int, offset + count));
            assert(buf@.skip(count as int) =~= old(buf)@.skip(count as int));
        }
        let ghost before = self.spec_readers();
        offset_map_insert(&mut self.readers, fc, offset + count);
        proof {
            assert forall|c: FileClientId| #[trigger] self.spec_readers().contains_key(c) implies self.spec_data() is Some
                && self.spec_readers()[c] <= self.spec_data()->0.len() by {
                if c != fc {
                    assert(before.contains_key(c));
                }
            }
        }
        IoResult::success(count)
    }

    pub fn read_waiting_for(&mut self, fc: FileClientId) -> (r: WaitFor)
        ensures
            r == WaitFor::NoWait,
    {
        WaitFor::NoWait
    }

    /// Remove reader when closing
    pub fn close(&mut self, fc: FileClientId) -> (r: IoResult<CloseAction>)
        requires
            old(self).wf(),
        ensures
            final(self).wf(),
            r.inner == IoResultPure::<CloseAction>::Success(CloseAction::Normal),
            r.events@.len() == 0,
            final(self).spec_readers() == old(self).spec_readers().remove(fc),
            final(self).spec_data() == old(self).spec_data(),
            final(self).spec_start_sector() == old(self).spec_start_sector(),
            final(self).spec_size_bytes() == old(self).spec_size_bytes(),
    {
        offset_map_remove(&mut self.readers, &fc);
        proof {
            assert forall|c: FileClientId| #[trigger] self.spec_readers().contains_key(c) implies self.spec_data() is Some
                && self.spec_readers()[c] <= self.spec_data()->0.len() by {
                assert(old(self).spec_readers().contains_key(c));
            }
        }
        IoResult::success(CloseAction::Normal)
    }
}

/// A read by `fc` into `buf0`, which became `buf1`, took `a` to `b`: the
/// bytes from where `fc` stopped, as many as are left and fit, and `fc`
/// now stops after them.
pub open spec fn static_read_done(
    a: StaticFSLeaf,
    b: StaticFSLeaf,
    fc: FileClientId,
    buf0: Seq<u8>,
    buf1: Seq<u8>,
    r: IoResult<usize>,
) -> bool {
    let data = a.spec_data()->0;
    let offset = a.offset_of(fc);
    let count = min_len(data.len() - offset, buf0.len() as int);
    &&& b.spec_data() == a.spec_data()
    &&& b.spec_start_sector() == a.spec_start_sector()
    &&& b.spec_size_bytes() == a.spec_size_bytes()
    &&& r.inner == IoResultPure::<usize>::Success(count as usize)
    &&& r.events@.len() == 0
    &&& buf1.len() == buf0.len()
    &&& buf1.take(count) == data.subrange(offset, offset + count)
    &&& buf1.skip(count) == buf0.skip(count)
    &&& b.spec_readers() == a.spec_readers().insert(fc, (offset + count) as usize)
}

/// The smaller of two integers.
pub open spec fn min_len(a: int, b: int) -> int {
    if a < b {
        a
    } else {
        b
    }
}

/// The sectors' bytes, one after another.
pub open spec fn flatten(s: Seq<Vec<u8>>) -> Seq<u8>
    decreases s.len(),
{
    if s.len() == 0 {
        Seq::empty()
    } else {
        flatten(s.drop_last()) + s.last()@
    }
}

proof fn lemma_flatten_take(s: Seq<Vec<u8>>, i: int)
    requires
        0 <= i <= s.len(),
    ensures
        i < s.len() ==> flatten(s.take(i + 1)) == flatten(s.take(i)) + s[i]@,
        flatten(s.take(i)).len() <= flatten(s).len(),
        flatten(s).take(flatten(s.take(i)).len() as int) == flatten(s.take(i)),
        i < s.len() ==> flatten(s.take(i + 1)).len() <= flatten(s).len(),
        i < s.len() ==> flatten(s).take(flatten(s.take(i + 1)).len() as int) == flatten(s.take(i + 1)),
        s.take(s.len() as int) == s,
    decreases s.len() - i,
{
    assert(s.take(s.len() as int) =~= s);
    if i < s.len() {
        assert(s.take(i + 1).drop_last() =~= s.take(i));
        lemma_flatten_take(s, i + 1);
        let a = flatten(s.take(i));
        let b = flatten(s.take(i + 1));
        assert(b == a + s[i]@);
        assert(flatten(s).take(a.len() as int) =~= b.take(a.len() as int));
        assert(b.take(a.len() as int) =~= a);
    }
}

} // verus!
