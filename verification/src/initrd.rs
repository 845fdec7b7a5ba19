//! Initial ramdisk: a header, a file list and the files' bytes, found
//! right after the kernel image.

use vstd::prelude::*;
use crate::bytes::{le_u32, le_u64, read_u32, read_u64};

verus! {

/// Bytes of the header before the file list: magic, list size, total size.
pub const HEADER_SIZE_BYTES: usize = 16;
/// The header must fit in a page together with the list.
pub const PAGE_SIZE_BYTES: u64 = 0x1000;

/// A file of the ramdisk: where its bytes start among the files' bytes,
/// and how many there are.
#[derive(Debug, Clone)]
pub struct FileEntry {
    pub name: String,
    pub offset: u64,
    pub size: u64,
}

/// What the header says.
#[derive(Debug, Clone, Copy, PartialEq, Eq, Structural)]
pub struct Header {
    /// Bytes of the encoded file list.
    pub size_flist: u32,
    /// Bytes of the whole ramdisk, header included.
    pub size_total: u64,
}

/// Why a ramdisk header was refused.
#[derive(Debug, Clone, Copy, PartialEq, Eq, Structural)]
pub enum InitRdError {
    /// The magic number is not the expected one.
    MagicMismatch,
    /// The file list is empty.
    Empty,
    /// The file list does not fit in the first page.
    TooLarge,
    /// The total size does not cover the header and the list.
    TooSmall,
}

/// Decodes and checks the header at the start of `h` against `magic`.
pub fn parse_header(h: &[u8], magic: u32) -> (r: Result<Header, InitRdError>)
    requires
        h@.len() >= HEADER_SIZE_BYTES,
    ensures
        ({
            let flist = le_u32(h@, 4);
            let total = le_u64(h@, 8);
            if le_u32(h@, 0) != magic {
                r == Err::<Header, InitRdError>(InitRdError::MagicMismatch)
            } else if flist == 0 {
                r == Err::<Header, InitRdError>(InitRdError::Empty)
            } else if flist + 8 >= PAGE_SIZE_BYTES {
                r == Err::<Header, InitRdError>(InitRdError::TooLarge)
            } else if total < HEADER_SIZE_BYTES + flist {
                r == Err::<Header, InitRdError>(InitRdError::TooSmall)
            } else {
                r == Ok::<Header, InitRdError>(Header { size_flist: flist as u32, size_total: total as u64 })
            }
        }),
{
    let m = read_u32(h, 0);
    let size_flist = read_u32(h, 4);
    let size_total = read_u64(h, 8);
    if m != magic {
        return Err(InitRdError::MagicMismatch);
    }
    if size_flist == 0 {
        return Err(InitRdError::Empty);
    }
    if size_flist as u64 + 8 >= PAGE_SIZE_BYTES {
        return Err(InitRdError::TooLarge);
    }
    if size_total < HEADER_SIZE_BYTES as u64 + size_flist as u64 {
        return Err(InitRdError::TooSmall);
    }
    Ok(Header { size_flist, size_total })
}

/// Where the files' bytes start, and how many there are.
pub fn files_area(header: Header) -> (r: (u64, u64))
    requires
        header.size_total >= HEADER_SIZE_BYTES + header.size_flist,
    ensures
        r.0 == HEADER_SIZE_BYTES + header.size_flist,
        r.1 == header.size_total - (HEADER_SIZE_BYTES + header.size_flist),
{
    let files_offset = HEADER_SIZE_BYTES as u64 + header.size_flist as u64;
    (files_offset, header.size_total - files_offset)
}

/// The ramdisk's files by name.
#[verifier::external_body]
pub struct FileMap {
    map: hashbrown::HashMap<String, FileEntry>,
}

/// Each file's offset and size, by its name's characters.
pub uninterp spec fn file_map_contents(m: FileMap) -> Map<Seq<char>, (u64, u64)>;

/// `hashbrown::HashMap::new`: no files.
#[verifier::external_body]
fn file_map_new() -> (r: FileMap)
    ensures
        file_map_contents(r).dom().len() == 0,
        file_map_contents(r).dom().finite(),
{
    FileMap { map: hashbrown::HashMap::new() }
}

/// `hashbrown::HashMap::insert`: the entry is filed under `name`, in
/// place of an earlier one. Names compare by their characters.
#[verifier::external_body]
fn file_map_insert(m: &mut FileMap, name: String, entry: FileEntry)
    ensures
        file_map_contents(*final(m)) == file_map_contents(*old(m)).insert(name@, (entry.offset, entry.size)),
{
    m.map.insert(name, entry);
}

/// `hashbrown::HashMap::get` with a `&str` key: the offset and size of the
/// file named `name`, if any.
#[verifier::external_body]
fn file_map_get(m: &FileMap, name: &str) -> (r: Option<(u64, u64)>)
    ensures
        r == (if file_map_contents(*m).contains_key(name@) {
            Some(file_map_contents(*m)[name@])
        } else {
            None
        }),
{
    m.map.get(name).map(|e| (e.offset, e.size))
}

/// The entries filed under their names, a later entry replacing an
/// earlier one of the same name.
pub open spec fn files_of(list: Seq<FileEntry>) -> Map<Seq<char>, (u64, u64)>
    decreases list.len(),
{
    if list.len() == 0 {
        Map::empty()
    } else {
        files_of(list.drop_last()).insert(list.last().name@, (list.last().offset, list.last().size))
    }
}

/// The initial ramdisk: its files by name, and their bytes.
pub struct InitRD {
    files: FileMap,
    slice: Vec<u8>,
}

impl InitRD {
    pub closed spec fn spec_files(&self) -> Map<Seq<char>, (u64, u64)> {
        file_map_contents(self.files)
    }

    pub closed spec fn spec_slice(&self) -> Seq<u8> {
        self.slice@
    }

    /// The ramdisk with the decoded file list and the files' bytes.
    pub fn new(file_list: Vec<FileEntry>, slice: Vec<u8>) -> (r: InitRD)
        ensures
            r.spec_files() == files_of(file_list@),
            r.spec_slice() == slice@,
    {
        let mut files = file_map_new();
        let mut i: usize = 0;
        proof {
            assert(file_map_contents(files) =~= files_of(file_list@.take(0)));
        }
        while i < file_list.len()
            invariant
                i <= file_list@.len(),
                file_map_contents(files) == files_of(file_list@.take(i as int)),
            decreases file_list@.len() - i,
        {
            let name = String::from_str(file_list[i].name.as_str());
            let entry = FileEntry {
                name: String::from_str(file_list[i].name.as_str()),
                offset: file_list[i].offset,
                size: file_list[i].size,
            };
            file_map_insert(&mut files, name, entry);
            proof {
                assert(file_list@.take(i + 1).drop_last() =~= file_list@.take(i as int));
            }
            i = i + 1;
        }
        proof {
            assert(file_list@.take(file_list@.len() as int) =~= file_list@);
        }
        InitRD { files, slice }
    }

    /// The bytes of the file named `name`, if there is one.
    pub fn read(&self, name: &str) -> (r: Option<&[u8]>)
        requires
            self.spec_files().contains_key(name@) ==> self.spec_files()[name@].0 + self.spec_files()[name@].1
                <= self.spec_slice().len(),
        ensures
            match r {
                Some(b) => self.spec_files().contains_key(name@) && b@ == self.spec_slice().subrange(
                    self.spec_files()[name@].0 as int,
                    self.spec_files()[name@].0 + self.spec_files()[name@].1,
                ),
                None => !self.spec_files().contains_key(name@),
            },
    {
        match file_map_get(&self.files, name) {
            Some((offset, size)) => {
                let _len = self.slice.len();
                let start = offset as usize;
                let end = (offset + size) as usize;
                let all = self.slice.as_slice();
                Some(&all[start..end])
            },
            None => None,
        }
    }
}

} // verus!
