//! Parser for the attributes of a 64-bit ELF image that the loader needs.
//! The image is given as its bytes; the header and program header table are
//! decoded from their packed little-endian layout.

use vstd::prelude::*;
use crate::bytes::{le_u16, le_u32, le_u64, read_u16, read_u32, read_u64};

verus! {

/// Where the boot loader places the kernel image.
pub const KERNEL_ELF_IMAGE_POSITION: usize = 0x10000;
/// Capacity of the loadable program header table.
pub const MAX_PH_ENTRY_COUNT: usize = 20;

pub const ELF_MAGIC: u32 = 0x464c457F;
pub const ELF_BITNESS_64: u8 = 2;
pub const ELF_LITTLE_ENDIAN: u8 = 1;
pub const CURRENT_ELF_VERSION: u8 = 1;
pub const ELF_ARCH_X86_64: u16 = 0x3E;
pub const ELF_PH_TABLE_ENTRY_SIZE: u16 = 56;
/// Size of the packed ELF file header.
pub const ELF_HEADER_SIZE: usize = 64;

/// Program segment permission bits.
#[derive(Clone, Copy, PartialEq, Eq, Debug)]
pub struct ELFPermissionFlags {
    pub bits: u32,
}

impl ELFPermissionFlags {
    pub const EXECUTABLE: u32 = 1;
    pub const WRITABLE: u32 = 2;
    pub const READABLE: u32 = 4;

    /// The flags whose bits are `bits`.
    pub fn from_bits(bits: u32) -> (r: ELFPermissionFlags)
        ensures
            r.bits == bits,
    {
        ELFPermissionFlags { bits }
    }

    /// Whether every bit of `other` is set in `self`.
    pub fn contains(&self, other: ELFPermissionFlags) -> (r: bool)
        ensures
            r == (self.bits & other.bits == other.bits),
    {
        self.bits & other.bits == other.bits
    }
}

/// The ELF file header, field by field.
#[derive(Clone, Copy, Debug)]
pub struct ELFHeader {
    pub magic: u32,
    pub bitness: u8,
    pub endianness: u8,
    pub elf_version: u8,
    pub abi_version: u8,
    pub undef: u64,
    pub elf_type: u16,
    pub instrucion_set: u16,
    pub elf_version_2: u32,
    pub program_entry_pos: u64,
    pub ph_table_position: u64,
    pub sh_table_position: u64,
    pub flags: u32,
    pub header_size: u16,
    pub ph_table_entry_size: u16,
    pub ph_table_entry_count: u16,
    pub sh_table_entry_size: u16,
    pub sh_table_entry_count: u16,
    pub sh_table_names: u16,
}

/// One entry of the program header table.
#[derive(Clone, Copy, Debug)]
pub struct ELFProgramHeader {
    pub header_type: u32,
    pub flags: ELFPermissionFlags,
    pub offset: u64,
    pub virtual_address: u64,
    pub undef: u64,
    pub size_in_file: u64,
    pub size_in_memory: u64,
    pub alignment: u64,
}

impl ELFProgramHeader {
    /// A segment of type LOAD.
    pub fn loadable(&self) -> (r: bool)
        ensures
            r == (self.header_type == 1),
    {
        self.header_type == 1
    }

    /// Whether the segment has all permissions of `flag`.
    pub fn has_flag(&self, flag: ELFPermissionFlags) -> (r: bool)
        ensures
            r == (self.flags.bits & flag.bits == flag.bits),
    {
        let flags = self.flags;
        flags.contains(flag)
    }
}

/// The parsed image: its header and its loadable segments, in table order,
/// followed by empty slots.
pub struct ELFData {
    pub header: ELFHeader,
    pub ph_table: Vec<Option<ELFProgramHeader>>,
}

#[derive(Debug, Clone, Copy)]
pub enum ELFParsingError {
    NotElf,
    Not64Bit,
    WrongEndianness,
    WrongVersion,
    WrongAbi,
    WrongInstrcutionSet,
    WrongElfVersion,
    InvalidELF,
    FeatureSupportMissing,
    EmptyHeader,
}

/// The header decoded from the first 64 bytes of `s`.
pub open spec fn spec_header(s: Seq<u8>) -> ELFHeader {
    ELFHeader {
        magic: le_u32(s, 0) as u32,
        bitness: s[4],
        endianness: s[5],
        elf_version: s[6],
        abi_version: s[7],
        undef: le_u64(s, 8) as u64,
        elf_type: le_u16(s, 16) as u16,
        instrucion_set: le_u16(s, 18) as u16,
        elf_version_2: le_u32(s, 20) as u32,
        program_entry_pos: le_u64(s, 24) as u64,
        ph_table_position: le_u64(s, 32) as u64,
        sh_table_position: le_u64(s, 40) as u64,
        flags: le_u32(s, 48) as u32,
        header_size: le_u16(s, 52) as u16,
        ph_table_entry_size: le_u16(s, 54) as u16,
        ph_table_entry_count: le_u16(s, 56) as u16,
        sh_table_entry_size: le_u16(s, 58) as u16,
        sh_table_entry_count: le_u16(s, 60) as u16,
        sh_table_names: le_u16(s, 62) as u16,
    }
}

/// The program header decoded from the 56 bytes at `off`.
pub open spec fn spec_program_header(s: Seq<u8>, off: int) -> ELFProgramHeader {
    ELFProgramHeader {
        header_type: le_u32(s, off) as u32,
        flags: ELFPermissionFlags { bits: le_u32(s, off + 4) as u32 },
        offset: le_u64(s, off + 8) as u64,
        virtual_address: le_u64(s, off + 16) as u64,
        undef: le_u64(s, off + 24) as u64,
        size_in_file: le_u64(s, off + 32) as u64,
        size_in_memory: le_u64(s, off + 40) as u64,
        alignment: le_u64(s, off + 48) as u64,
    }
}

/// The first failed check on a header, in the order the loader checks them.
pub open spec fn header_error(h: ELFHeader) -> Option<ELFParsingError> {
    if h.magic != ELF_MAGIC {
        Some(ELFParsingError::NotElf)
    } else if h.bitness != ELF_BITNESS_64 {
        Some(ELFParsingError::Not64Bit)
    } else if h.ph_table_entry_size != ELF_PH_TABLE_ENTRY_SIZE {
        Some(ELFParsingError::InvalidELF)
    } else if h.endianness != ELF_LITTLE_ENDIAN {
        Some(ELFParsingError::WrongEndianness)
    } else if h.elf_version != CURRENT_ELF_VERSION {
        Some(ELFParsingError::WrongVersion)
    } else if h.elf_version_2 != CURRENT_ELF_VERSION as u32 {
        Some(ELFParsingError::WrongVersion)
    } else if h.instrucion_set != ELF_ARCH_X86_64 {
        Some(ELFParsingError::WrongInstrcutionSet)
    } else {
        None
    }
}

/// Byte offset of program header `i`.
pub open spec fn ph_offset(h: ELFHeader, i: int) -> int {
    h.ph_table_position + h.ph_table_entry_size * i
}

/// The loadable program headers among the first `n` table entries.
pub open spec fn loadable_headers(s: Seq<u8>, h: ELFHeader, n: nat) -> Seq<ELFProgramHeader>
    decreases n,
{
    if n == 0 {
        Seq::empty()
    } else {
        let prev = loadable_headers(s, h, (n - 1) as nat);
        let ph = spec_program_header(s, ph_offset(h, n - 1));
        if ph.header_type == 1 {
            prev.push(ph)
        } else {
            prev
        }
    }
}

/// A table of `MAX_PH_ENTRY_COUNT` slots holding `hs` first.
pub open spec fn padded_table(hs: Seq<ELFProgramHeader>) -> Seq<Option<ELFProgramHeader>> {
    Seq::new(
        MAX_PH_ENTRY_COUNT as nat,
        |i: int| if i < hs.len() { Some(hs[i]) } else { None },
    )
}

/// What reading the image needs: the header lies in it, and when the
/// header is accepted, so does the whole program header table, whose
/// loadable entries fit the table's capacity.
pub open spec fn image_readable(s: Seq<u8>) -> bool {
    &&& s.len() >= ELF_HEADER_SIZE
    &&& header_error(spec_header(s)) is None ==> {
        let h = spec_header(s);
        &&& ph_offset(h, h.ph_table_entry_count as int) <= s.len()
        &&& loadable_headers(s, h, h.ph_table_entry_count as nat).len() <= MAX_PH_ENTRY_COUNT
    }
}

proof fn lemma_loadable_headers_monotone(s: Seq<u8>, h: ELFHeader, m: nat, n: nat)
    requires
        m <= n,
    ensures
        loadable_headers(s, h, m).len() <= loadable_headers(s, h, n).len(),
    decreases n,
{
    if m < n {
        lemma_loadable_headers_monotone(s, h, m, (n - 1) as nat);
    }
}

fn read_header(image: &[u8]) -> (h: ELFHeader)
    requires
        image@.len() >= ELF_HEADER_SIZE,
    ensures
        h == spec_header(image@),
{
    ELFHeader {
        magic: read_u32(image, 0),
        bitness: image[4],
        endianness: image[5],
        elf_version: image[6],
        abi_version: image[7],
        undef: read_u64(image, 8),
        elf_type: read_u16(image, 16),
        instrucion_set: read_u16(image, 18),
        elf_version_2: read_u32(image, 20),
        program_entry_pos: read_u64(image, 24),
        ph_table_position: read_u64(image, 32),
        sh_table_position: read_u64(image, 40),
        flags: read_u32(image, 48),
        header_size: read_u16(image, 52),
        ph_table_entry_size: read_u16(image, 54),
        ph_table_entry_count: read_u16(image, 56),
        sh_table_entry_size: read_u16(image, 58),
        sh_table_entry_count: read_u16(image, 60),
        sh_table_names: read_u16(image, 62),
    }
}

fn read_program_header(image: &[u8], off: usize) -> (ph: ELFProgramHeader)
    requires
        off + 56 <= image@.len(),
    ensures
        ph == spec_program_header(image@, off as int),
{
    let _len = image.len();
    ELFProgramHeader {
        header_type: read_u32(image, off),
        flags: ELFPermissionFlags { bits: read_u32(image, off + 4) },
        offset: read_u64(image, off + 8),
        virtual_address: read_u64(image, off + 16),
        undef: read_u64(image, off + 24),
        size_in_file: read_u64(image, off + 32),
        size_in_memory: read_u64(image, off + 40),
        alignment: read_u64(image, off + 48),
    }
}

fn check_header(h: &ELFHeader) -> (r: Option<ELFParsingError>)
    ensures
        r == header_error(*h),
{
    if h.magic != ELF_MAGIC {
        Some(ELFParsingError::NotElf)
    } else if h.bitness != ELF_BITNESS_64 {
        Some(ELFParsingError::Not64Bit)
    } else if h.ph_table_entry_size != ELF_PH_TABLE_ENTRY_SIZE {
        Some(ELFParsingError::InvalidELF)
    } else if h.endianness != ELF_LITTLE_ENDIAN {
        Some(ELFParsingError::WrongEndianness)
    } else if h.elf_version != CURRENT_ELF_VERSION {
        Some(ELFParsingError::WrongVersion)
    } else if h.elf_version_2 != CURRENT_ELF_VERSION as u32 {
        Some(ELFParsingError::WrongVersion)
    } else if h.instrucion_set != ELF_ARCH_X86_64 {
        Some(ELFParsingError::WrongInstrcutionSet)
    } else {
        None
    }
}

/// Parses the ELF image whose bytes are `image`.
///
/// Fails with the first header check that does not pass; otherwise the
/// result holds the header and the LOAD segments of the program header
/// table, in order.
pub fn parse_elf(image: &[u8]) -> (r: Result<ELFData, ELFParsingError>)
    requires
        image_readable(image@),
    ensures
        match r {
            Err(e) => header_error(spec_header(image@)) == Some(e),
            Ok(d) => {
                let h = spec_header(image@);
                &&& header_error(h) is None
                &&& d.header == h
                &&& d.ph_table@ == padded_table(
                    loadable_headers(image@, h, h.ph_table_entry_count as nat),
                )
            },
        },
{
    let header = read_header(image);
    match check_header(&header) {
        Some(e) => Err(e),
        None => {
            let ghost s = image@;
            let ghost h = header;
            let mut ph_table: Vec<Option<ELFProgramHeader>> = Vec::new();
            let mut k: usize = 0;
            while k < MAX_PH_ENTRY_COUNT
                invariant
                    k <= MAX_PH_ENTRY_COUNT,
                    ph_table@.len() == k,
                    forall|j: int| 0 <= j < k ==> ph_table@[j] is None,
                decreases MAX_PH_ENTRY_COUNT - k,
            {
                ph_table.push(None);
                k = k + 1;
            }
            let count = header.ph_table_entry_count;
            let len = image.len();
            let mut filled: usize = 0;
            let mut index: u16 = 0;
            while index < count
                invariant
                    h == spec_header(s),
                    s == image@,
                    header == h,
                    count == h.ph_table_entry_count,
                    header_error(h) is None,
                    image_readable(s),
                    len == s.len(),
                    index <= count,
                    ph_table@.len() == MAX_PH_ENTRY_COUNT,
                    filled == loadable_headers(s, h, index as nat).len(),
                    forall|j: int|
                        0 <= j < MAX_PH_ENTRY_COUNT ==> ph_table@[j] == (if j < filled {
                            Some(loadable_headers(s, h, index as nat)[j])
                        } else {
                            None::<ELFProgramHeader>
                        }),
                decreases count - index,
            {
                proof {
                    assert(ph_offset(h, index as int + 1) <= ph_offset(h, count as int))
                        by (nonlinear_arith)
                        requires
                            index < count,
                            h.ph_table_entry_size == 56,
                    ;
                    lemma_loadable_headers_monotone(s, h, (index + 1) as nat, count as nat);
                }
                let off = (header.ph_table_position + 56 * (index as u64)) as usize;
                let ph = read_program_header(image, off);
                proof {
                    assert(off as int == ph_offset(h, index as int));
                }
                if ph.header_type == 1 {
                    ph_table.set(filled, Some(ph));
                    filled = filled + 1;
                }
                index = index + 1;
            }
            proof {
                assert(ph_table@ =~= padded_table(loadable_headers(s, h, count as nat)));
            }
            Ok(ELFData { header, ph_table })
        },
    }
}

} // verus!
