//! ELF64 images: the file header, the program headers, and the pages that the
//! loadable segments of a file fill.
use vstd::prelude::*;
use std::collections::BTreeMap;
use crate::bytes::{
    is_power_of_two, le16, le32, le64, read_array, read_u16, read_u32, read_u64,
};
use crate::paging::page_of;

verus! {

/// Bytes in the file header.
pub const ELF_HEADER_SIZE: usize = 64;

/// Bytes in one program header.
pub const PROGRAM_HEADER_SIZE: usize = 56;

/// Bytes in a page.
pub const PAGE_SIZE: u64 = 0x1000;

/// The file header of a 64-bit ELF image.
#[derive(Debug, Clone, Copy, PartialEq, Eq)]
pub struct ElfHeader {
    pub magic_num: [u8; 4],
    pub bits: u8,
    pub endianness: u8,
    pub elf_header_version: u8,
    pub os_abi: u8,
    pub elf_type: u16,
    pub instruction_set: u16,
    pub elf_version: u32,
    pub program_entry: u64,
    pub program_header_table: u64,
    pub section_header_table: u64,
    pub flags: u32,
    pub header_size: u16,
    pub program_entry_size: u16,
    pub program_entry_count: u16,
    pub section_entry_size: u16,
    pub section_entry_count: u16,
    pub section_names_idx: u16,
}

/// Why a file header was turned down.
#[derive(Debug, Clone, Copy, PartialEq, Eq)]
pub enum ElfVerifyError {
    /// The slice does not have the length of a header; holds the length it has.
    BadSliceSize(usize),
    BadMagicNum,
    Elf32Bit,
    BadEndianness,
    BadArch,
}

impl ElfVerifyError {
    /// The error in words.
    pub fn message(&self) -> (r: &'static str)
        ensures
            r@ == match *self {
                ElfVerifyError::BadSliceSize(_) => "incorrect slice size provided"@,
                ElfVerifyError::BadMagicNum => "incorrect ELF magic num"@,
                ElfVerifyError::Elf32Bit => "only 64-bit elf is supported"@,
                ElfVerifyError::BadEndianness => "ELF is not little endian"@,
                ElfVerifyError::BadArch => "ELF is not x64"@,
            },
    {
        match self {
            ElfVerifyError::BadSliceSize(_) => "incorrect slice size provided",
            ElfVerifyError::BadMagicNum => "incorrect ELF magic num",
            ElfVerifyError::Elf32Bit => "only 64-bit elf is supported",
            ElfVerifyError::BadEndianness => "ELF is not little endian",
            ElfVerifyError::BadArch => "ELF is not x64",
        }
    }
}

/// The four bytes that every ELF file starts with.
pub open spec fn spec_magic() -> Seq<u8> {
    seq![0x7Fu8, 0x45u8, 0x4Cu8, 0x46u8]
}

impl ElfHeader {
    /// Whether every field of the header is what the 64 bytes spell at its place.
    pub open spec fn spec_parsed_from(self, b: Seq<u8>) -> bool
        recommends
            b.len() == 64,
    {
        &&& self.magic_num@ == b.subrange(0, 4)
        &&& self.bits == b[4]
        &&& self.endianness == b[5]
        &&& self.elf_header_version == b[6]
        &&& self.os_abi == b[7]
        &&& self.elf_type == le16(b, 16)
        &&& self.instruction_set == le16(b, 18)
        &&& self.elf_version == le32(b, 20)
        &&& self.program_entry == le64(b, 24)
        &&& self.program_header_table == le64(b, 32)
        &&& self.section_header_table == le64(b, 40)
        &&& self.flags == le32(b, 48)
        &&& self.header_size == le16(b, 52)
        &&& self.program_entry_size == le16(b, 54)
        &&& self.program_entry_count == le16(b, 56)
        &&& self.section_entry_size == le16(b, 58)
        &&& self.section_entry_count == le16(b, 60)
        &&& self.section_names_idx == le16(b, 62)
    }

    /// The first reason to turn the bytes down as a header, if there is one: the
    /// length, the magic number, the word size, the byte order, the machine.
    pub open spec fn spec_verify(b: Seq<u8>) -> Option<ElfVerifyError> {
        if b.len() != 64 {
            Some(ElfVerifyError::BadSliceSize(b.len() as usize))
        } else if b.subrange(0, 4) != spec_magic() {
            Some(ElfVerifyError::BadMagicNum)
        } else if b[4] != 2 {
            Some(ElfVerifyError::Elf32Bit)
        } else if b[5] != 1 {
            Some(ElfVerifyError::BadEndianness)
        } else if le16(b, 18) != 0x3E {
            Some(ElfVerifyError::BadArch)
        } else {
            None
        }
    }

    /// Reads and checks a file header.
    ///
    /// The bytes are turned down, in this order, for a length other than 64, a wrong
    /// magic number, a word size other than 64 bits, a byte order other than little
    /// endian, a machine other than x86-64. Otherwise the header is returned, field
    /// by field as the bytes spell it.
    pub fn from_slice(bytes: &[u8]) -> (r: Result<ElfHeader, ElfVerifyError>)
        ensures
            match r {
                Ok(h) => Self::spec_verify(bytes@) is None && h.spec_parsed_from(bytes@),
                Err(e) => Self::spec_verify(bytes@) == Some(e),
            },
    {
        if bytes.len() != ELF_HEADER_SIZE {
            return Err(ElfVerifyError::BadSliceSize(bytes.len()));
        }
        let magic_num: [u8; 4] = read_array(bytes, 0);
        if magic_num[0] != 0x7F || magic_num[1] != 0x45 || magic_num[2] != 0x4C || magic_num[3]
            != 0x46 {
            assert(bytes@.subrange(0, 4) != spec_magic()) by {
                if bytes@.subrange(0, 4) == spec_magic() {
                    assert(spec_magic()[0] == 0x7F && spec_magic()[1] == 0x45 && spec_magic()[2]
                        == 0x4C && spec_magic()[3] == 0x46);
                }
            }
            return Err(ElfVerifyError::BadMagicNum);
        }
        assert(bytes@.subrange(0, 4) =~= spec_magic());
        let header = ElfHeader {
            magic_num,
            bits: bytes[4],
            endianness: bytes[5],
            elf_header_version: bytes[6],
            os_abi: bytes[7],
            elf_type: read_u16(bytes, 16),
            instruction_set: read_u16(bytes, 18),
            elf_version: read_u32(bytes, 20),
            program_entry: read_u64(bytes, 24),
            program_header_table: read_u64(bytes, 32),
            section_header_table: read_u64(bytes, 40),
            flags: read_u32(bytes, 48),
            header_size: read_u16(bytes, 52),
            program_entry_size: read_u16(bytes, 54),
            program_entry_count: read_u16(bytes, 56),
            section_entry_size: read_u16(bytes, 58),
            section_entry_count: read_u16(bytes, 60),
            section_names_idx: read_u16(bytes, 62),
        };
        if header.bits != 2 {
            return Err(ElfVerifyError::Elf32Bit);
        }
        if header.endianness != 1 {
            return Err(ElfVerifyError::BadEndianness);
        }
        if header.instruction_set != 0x3E {
            return Err(ElfVerifyError::BadArch);
        }
        Ok(header)
    }
}

/// The kinds of program header, by the number that stands for each in the file.
#[derive(Debug, Clone, Copy, PartialEq, Eq, Structural)]
pub enum ProgramHeaderType {
    Null,
    Load,
    Dynamic,
    Interp,
    Note,
    SHLib,
    PHDR,
    LoProc,
    HiProc,
}

impl ProgramHeaderType {
    /// The number that stands for this kind in a file.
    pub open spec fn spec_value(self) -> u32 {
        match self {
            ProgramHeaderType::Null => 0x0,
            ProgramHeaderType::Load => 0x1,
            ProgramHeaderType::Dynamic => 0x2,
            ProgramHeaderType::Interp => 0x3,
            ProgramHeaderType::Note => 0x4,
            ProgramHeaderType::SHLib => 0x5,
            ProgramHeaderType::PHDR => 0x6,
            ProgramHeaderType::LoProc => 0x70000000,
            ProgramHeaderType::HiProc => 0x7FFFFFFF,
        }
    }

    /// The kind that `value` stands for, if it stands for one.
    pub open spec fn spec_from_value(value: u32) -> Option<ProgramHeaderType> {
        if value == 0x0 {
            Some(ProgramHeaderType::Null)
        } else if value == 0x1 {
            Some(ProgramHeaderType::Load)
        } else if value == 0x2 {
            Some(ProgramHeaderType::Dynamic)
        } else if value == 0x3 {
            Some(ProgramHeaderType::Interp)
        } else if value == 0x4 {
            Some(ProgramHeaderType::Note)
        } else if value == 0x5 {
            Some(ProgramHeaderType::SHLib)
        } else if value == 0x6 {
            Some(ProgramHeaderType::PHDR)
        } else if value == 0x70000000 {
            Some(ProgramHeaderType::LoProc)
        } else if value == 0x7FFFFFFF {
            Some(ProgramHeaderType::HiProc)
        } else {
            None
        }
    }

    /// The number that stands for this kind in a file.
    pub fn value(self) -> (r: u32)
        ensures
            r == self.spec_value(),
    {
        match self {
            ProgramHeaderType::Null => 0x0,
            ProgramHeaderType::Load => 0x1,
            ProgramHeaderType::Dynamic => 0x2,
            ProgramHeaderType::Interp => 0x3,
            ProgramHeaderType::Note => 0x4,
            ProgramHeaderType::SHLib => 0x5,
            ProgramHeaderType::PHDR => 0x6,
            ProgramHeaderType::LoProc => 0x70000000,
            ProgramHeaderType::HiProc => 0x7FFFFFFF,
        }
    }

    /// The kind that `value` stands for; `None` for a number that stands for none.
    pub fn from_value(value: u32) -> (r: Option<ProgramHeaderType>)
        ensures
            r == Self::spec_from_value(value),
            r is Some ==> r.unwrap().spec_value() == value,
    {
        if value == 0x0 {
            Some(ProgramHeaderType::Null)
        } else if value == 0x1 {
            Some(ProgramHeaderType::Load)
        } else if value == 0x2 {
            Some(ProgramHeaderType::Dynamic)
        } else if value == 0x3 {
            Some(ProgramHeaderType::Interp)
        } else if value == 0x4 {
            Some(ProgramHeaderType::Note)
        } else if value == 0x5 {
            Some(ProgramHeaderType::SHLib)
        } else if value == 0x6 {
            Some(ProgramHeaderType::PHDR)
        } else if value == 0x70000000 {
            Some(ProgramHeaderType::LoProc)
        } else if value == 0x7FFFFFFF {
            Some(ProgramHeaderType::HiProc)
        } else {
            None
        }
    }
}

/// One entry of the program header table.
#[derive(Debug, Clone, Copy, PartialEq, Eq, Structural)]
pub struct ProgramHeader {
    /// The kind of the entry, as the number in the file.
    pub header_type: u32,
    pub flags: u32,
    /// Where the segment's bytes start in the file.
    pub offset: u64,
    /// Where the segment starts in memory.
    pub virt_addr: u64,
    /// Bytes of the segment that the file holds.
    pub file_size: u64,
    /// Bytes of the segment in memory.
    pub mem_size: u64,
    pub align: u64,
}

impl ProgramHeader {
    /// The entry that the 56 bytes at `at` spell.
    pub open spec fn spec_parse(b: Seq<u8>, at: int) -> ProgramHeader {
        ProgramHeader {
            header_type: le32(b, at) as u32,
            flags: le32(b, at + 4) as u32,
            offset: le64(b, at + 8) as u64,
            virt_addr: le64(b, at + 16) as u64,
            file_size: le64(b, at + 32) as u64,
            mem_size: le64(b, at + 40) as u64,
            align: le64(b, at + 48) as u64,
        }
    }

    /// Whether the entry describes a segment to load.
    pub open spec fn spec_is_load(self) -> bool {
        self.header_type == 1
    }

    /// Whether the segment can be loaded from a file of `file_len` bytes: its bytes
    /// lie inside the file, it is no longer in the file than in memory, and the
    /// pages that cover it end below the top of the address space.
    pub open spec fn spec_loadable(self, file_len: int) -> bool {
        &&& self.offset + self.file_size <= file_len
        &&& self.file_size <= self.mem_size
        &&& self.virt_addr + self.mem_size + 0xFFF <= u64::MAX
    }

    /// Whether the segment reaches into the page that starts at `page`.
    pub open spec fn spec_needs_page(self, page: int) -> bool {
        &&& self.spec_is_load()
        &&& page % 0x1000 == 0
        &&& page_of(self.virt_addr as int) <= page < self.virt_addr + self.mem_size
    }

    /// Whether the file holds the segment's byte for the address.
    pub open spec fn spec_has_byte(self, addr: int) -> bool {
        self.spec_is_load() && self.virt_addr <= addr < self.virt_addr + self.file_size
    }

    /// Reads the entry at `at`.
    pub fn from_slice(bytes: &[u8], at: usize) -> (r: ProgramHeader)
        requires
            at + 56 <= bytes@.len(),
        ensures
            r == Self::spec_parse(bytes@, at as int),
    {
        let _n = bytes.len();
        ProgramHeader {
            header_type: read_u32(bytes, at),
            flags: read_u32(bytes, at + 4),
            offset: read_u64(bytes, at + 8),
            virt_addr: read_u64(bytes, at + 16),
            file_size: read_u64(bytes, at + 32),
            mem_size: read_u64(bytes, at + 40),
            align: read_u64(bytes, at + 48),
        }
    }

    /// The kind of the entry; `None` where the number stands for no kind.
    pub fn get_type(&self) -> (r: Option<ProgramHeaderType>)
        ensures
            r == ProgramHeaderType::spec_from_value(self.header_type),
    {
        ProgramHeaderType::from_value(self.header_type)
    }

    /// Whether the entry describes a segment to load.
    pub fn is_load(&self) -> (r: bool)
        ensures
            r == self.spec_is_load(),
    {
        self.header_type == 1
    }

    /// Whether the segment can be loaded from a file of `file_len` bytes.
    pub fn loadable(&self, file_len: usize) -> (r: bool)
        ensures
            r == self.spec_loadable(file_len as int),
    {
        if self.file_size > self.mem_size {
            return false;
        }
        if self.virt_addr > u64::MAX - 0xFFF || self.mem_size > u64::MAX - 0xFFF - self.virt_addr {
            return false;
        }
        if self.offset > file_len as u64 || self.file_size > file_len as u64 - self.offset {
            return false;
        }
        true
    }
}

/// Why a file could not be loaded.
#[derive(Debug, Clone, Copy, PartialEq, Eq)]
pub enum ElfLoadError {
    /// The file header was turned down.
    Header(ElfVerifyError),
    /// The program header table does not lie inside the file.
    ProgramHeaderTable,
    /// The loadable segment with this index in the table cannot be loaded.
    Segment(usize),
}

/// The `count` program headers that lie in the file from offset `table` on.
pub open spec fn spec_program_headers(file: Seq<u8>, table: int, count: nat) -> Seq<
    ProgramHeader,
> {
    Seq::new(count, |k: int| ProgramHeader::spec_parse(file, table + 56 * k))
}

/// Reads the program header table that the file header names.
///
/// Fails exactly when the table does not lie inside the file.
pub fn program_headers(file: &[u8], header: &ElfHeader) -> (r: Result<
    Vec<ProgramHeader>,
    ElfLoadError,
>)
    ensures
        match r {
            Ok(v) => header.program_header_table + 56 * header.program_entry_count <= file@.len()
                && v@ == spec_program_headers(
                file@,
                header.program_header_table as int,
                header.program_entry_count as nat,
            ),
            Err(e) => e == ElfLoadError::ProgramHeaderTable && header.program_header_table + 56
                * header.program_entry_count > file@.len(),
        },
{
    let len = file.len();
    let count = header.program_entry_count as usize;
    if header.program_header_table > len as u64 || 56 * (count as u64) > len as u64
        - header.program_header_table {
        return Err(ElfLoadError::ProgramHeaderTable);
    }
    let table = header.program_header_table as usize;
    let mut v: Vec<ProgramHeader> = Vec::new();
    let mut k: usize = 0;
    while k < count
        invariant
            k <= count,
            count == header.program_entry_count,
            len == file@.len(),
            table + 56 * count <= len,
            v@ == spec_program_headers(file@, table as int, k as nat),
        decreases count - k,
    {
        v.push(ProgramHeader::from_slice(file, table + 56 * k));
        k += 1;
        assert(v@ =~= spec_program_headers(file@, table as int, k as nat));
    }
    Ok(v)
}

/// Whether one of the segments reaches into the page that starts at `page`.
pub open spec fn needs_page(headers: Seq<ProgramHeader>, page: int) -> bool {
    exists|i: int| 0 <= i < headers.len() && (#[trigger] headers[i]).spec_needs_page(page)
}

/// The byte that the loaded image holds at `addr`: the file's byte of the last
/// segment in the table that has one for the address, and zero where none has.
pub open spec fn image_byte(file: Seq<u8>, headers: Seq<ProgramHeader>, addr: int) -> u8
    decreases headers.len(),
{
    if headers.len() == 0 {
        0
    } else {
        let h = headers.last();
        if h.spec_has_byte(addr) {
            file[h.offset + (addr - h.virt_addr)]
        } else {
            image_byte(file, headers.drop_last(), addr)
        }
    }
}

/// Index of the first loadable segment that cannot be loaded, if there is one.
pub open spec fn first_bad_segment(headers: Seq<ProgramHeader>, file_len: int) -> Option<usize>
    decreases headers.len(),
{
    if headers.len() == 0 {
        None
    } else {
        match first_bad_segment(headers.drop_last(), file_len) {
            Some(i) => Some(i),
            None => if headers.last().spec_is_load() && !headers.last().spec_loadable(file_len) {
                Some((headers.len() - 1) as usize)
            } else {
                None
            },
        }
    }
}

/// Where no segment is bad, every loadable segment can be loaded.
pub proof fn lemma_no_bad_segment(headers: Seq<ProgramHeader>, file_len: int)
    requires
        first_bad_segment(headers, file_len) is None,
    ensures
        forall|i: int|
            0 <= i < headers.len() && (#[trigger] headers[i]).spec_is_load()
                ==> headers[i].spec_loadable(file_len),
    decreases headers.len(),
{
    if headers.len() > 0 {
        lemma_no_bad_segment(headers.drop_last(), file_len);
        assert forall|i: int|
            0 <= i < headers.len() && (#[trigger] headers[i]).spec_is_load() implies headers[i].spec_loadable(
            file_len,
        ) by {
            if i < headers.len() - 1 {
                assert(headers.drop_last()[i] == headers[i]);
            }
        }
    }
}

/// The image is zero wherever no segment reaches into the page of the address.
pub proof fn lemma_image_zero_outside(file: Seq<u8>, headers: Seq<ProgramHeader>, addr: int)
    requires
        forall|i: int|
            0 <= i < headers.len() && (#[trigger] headers[i]).spec_is_load()
                ==> headers[i].file_size <= headers[i].mem_size,
        !needs_page(headers, page_of(addr)),
    ensures
        image_byte(file, headers, addr) == 0,
    decreases headers.len(),
{
    if headers.len() > 0 {
        let h = headers.last();
        let rest = headers.drop_last();
        assert(!h.spec_needs_page(page_of(addr)));
        assert forall|i: int| 0 <= i < rest.len() implies !(#[trigger] rest[i]).spec_needs_page(
            page_of(addr),
        ) by {
            assert(rest[i] == headers[i]);
        }
        assert forall|i: int|
            0 <= i < rest.len() && (#[trigger] rest[i]).spec_is_load() implies rest[i].file_size
            <= rest[i].mem_size by {
            assert(rest[i] == headers[i]);
        }
        lemma_image_zero_outside(file, rest, addr);
    }
}

/// `x86_64::addr::align_down`: for an alignment that is a power of two (it panics
/// on any other) it returns the greatest multiple of the alignment that is not
/// above the address.
pub assume_specification[ x86_64::addr::align_down ](addr: u64, align: u64) -> (r: u64)
    requires
        is_power_of_two(align),
    ensures
        r == addr - addr % align,
;

/// The start of the page that holds `addr`.
pub fn page_start(addr: u64) -> (r: u64)
    ensures
        r == page_of(addr as int),
{
    assert(is_power_of_two(0x1000)) by (bit_vector);
    x86_64::addr::align_down(addr, PAGE_SIZE)
}

/// The pages of a loaded image, each under the address at which it starts.
pub type Regions = BTreeMap<u64, [u8; 4096]>;

/// Takes the page at `page` out of `regions`, or makes a page of zeros where
/// `regions` holds none there.
fn take_page(regions: &mut Regions, page: u64) -> (r: [u8; 4096])
    ensures
        final(regions)@ == old(regions)@.remove(page),
        old(regions)@.contains_key(page) ==> r == old(regions)@[page],
        !old(regions)@.contains_key(page) ==> forall|j: int| 0 <= j < 4096 ==> r@[j] == 0,
{
    broadcast use vstd::std_specs::btree::group_btree_axioms;
    broadcast use vstd::laws_cmp::group_laws_cmp;

    match regions.remove(&page) {
        Some(p) => p,
        None => [0u8; 4096],
    }
}

/// Puts `data` into `regions` as the page at `page`.
fn put_page(regions: &mut Regions, page: u64, data: [u8; 4096])
    ensures
        final(regions)@ == old(regions)@.insert(page, data),
{
    broadcast use vstd::std_specs::btree::group_btree_axioms;
    broadcast use vstd::laws_cmp::group_laws_cmp;

    regions.insert(page, data);
}

/// The byte at offset `j` of the page at `page` after the segment `h` was loaded
/// over `before`: the segment's byte where the file holds one, else what was there.
pub open spec fn loaded_byte(file: Seq<u8>, h: ProgramHeader, page: int, j: int, before: u8) -> u8 {
    if h.spec_has_byte(page + j) {
        file[h.offset + (page + j - h.virt_addr)]
    } else {
        before
    }
}

/// Copies into `data`, the page at `page`, the bytes that the file holds for it of
/// the segment `h`.
fn fill_page(file: &[u8], h: &ProgramHeader, page: u64, data: &mut [u8; 4096])
    requires
        h.spec_is_load(),
        h.spec_loadable(file@.len() as int),
        page + 0x1000 <= u64::MAX,
    ensures
        forall|j: int|
            0 <= j < 4096 ==> #[trigger] final(data)@[j] == loaded_byte(
                file@,
                *h,
                page as int,
                j,
                old(data)@[j],
            ),
{
    let _n = file.len();
    let ghost before = data@;
    let mut j: usize = 0;
    while j < 4096
        invariant
            j <= 4096,
            h.spec_is_load(),
            h.spec_loadable(file@.len() as int),
            file@.len() <= usize::MAX,
            page + 0x1000 <= u64::MAX,
            forall|i: int|
                0 <= i < j ==> #[trigger] data@[i] == loaded_byte(
                    file@,
                    *h,
                    page as int,
                    i,
                    before[i],
                ),
            forall|i: int| j <= i < 4096 ==> #[trigger] data@[i] == before[i],
        decreases 4096 - j,
    {
        let addr = page + j as u64;
        if h.virt_addr <= addr && addr - h.virt_addr < h.file_size {
            let at = (h.offset + (addr - h.virt_addr)) as usize;
            data[j] = file[at];
        }
        j += 1;
    }
}

/// What `regions` holds after the pages of the segment `h` below `upto` were loaded
/// over `before`.
pub open spec fn segment_loaded(
    file: Seq<u8>,
    h: ProgramHeader,
    before: Map<u64, [u8; 4096]>,
    upto: int,
    regions: Map<u64, [u8; 4096]>,
) -> bool {
    &&& forall|page: u64|
        #![trigger regions.contains_key(page)]
        #![trigger before.contains_key(page)]
        #![trigger h.spec_needs_page(page as int)]
        regions.contains_key(page) <==> before.contains_key(page) || (h.spec_needs_page(
            page as int,
        ) && page < upto)
    &&& forall|page: u64, j: int|
        #![trigger regions[page]@[j]]
        regions.contains_key(page) && 0 <= j < 4096 ==> regions[page]@[j] == if h.spec_needs_page(
            page as int,
        ) && page < upto {
            loaded_byte(
                file,
                h,
                page as int,
                j,
                if before.contains_key(page) {
                    before[page]@[j]
                } else {
                    0
                },
            )
        } else {
            before[page]@[j]
        }
}

/// Loads one segment: every page that it reaches into is there afterwards, with
/// the file's bytes where the file holds some for it, with what it held before
/// elsewhere, and zero where it is new.
fn load_segment(file: &[u8], h: &ProgramHeader, regions: &mut Regions)
    requires
        h.spec_is_load(),
        h.spec_loadable(file@.len() as int),
    ensures
        segment_loaded(
            file@,
            *h,
            old(regions)@,
            h.virt_addr + h.mem_size,
            final(regions)@,
        ),
{
    let ghost before = regions@;
    let end = h.virt_addr + h.mem_size;
    let mut page = page_start(h.virt_addr);
    assert(segment_loaded(file@, *h, before, page as int, regions@));
    while page < end
        invariant
            h.spec_is_load(),
            h.spec_loadable(file@.len() as int),
            end == h.virt_addr + h.mem_size,
            page % 0x1000 == 0,
            page_of(h.virt_addr as int) <= page <= end + 0xFFF,
            segment_loaded(file@, *h, before, page as int, regions@),
        decreases end + 0x1000 - page,
    {
        let ghost prior = regions@;
        let mut data = take_page(regions, page);
        let ghost taken = data@;
        fill_page(file, h, page, &mut data);
        put_page(regions, page, data);
        let ghost here = page;
        page += 0x1000;
        assert(segment_loaded(file@, *h, before, page as int, regions@)) by {
            assert forall|q: u64|
                regions@.contains_key(q) <==> before.contains_key(q) || (h.spec_needs_page(
                    q as int,
                ) && q < page) by {
                if q != here {
                    assert(regions@.contains_key(q) == prior.contains_key(q));
                    assert(h.spec_needs_page(q as int) && q < page ==> q < here);
                }
            }
            assert forall|q: u64, j: int|
                #![trigger regions@[q]@[j]]
                regions@.contains_key(q) && 0 <= j < 4096 implies regions@[q]@[j]
                == if h.spec_needs_page(q as int) && q < page {
                loaded_byte(
                    file@,
                    *h,
                    q as int,
                    j,
                    if before.contains_key(q) {
                        before[q]@[j]
                    } else {
                        0
                    },
                )
            } else {
                before[q]@[j]
            } by {
                if q != here {
                    assert(regions@[q] == prior[q]);
                    assert(prior.contains_key(q));
                    assert(h.spec_needs_page(q as int) && q < page ==> q < here);
                } else {
                    assert(regions@[q] == data);
                    assert(!(h.spec_needs_page(q as int) && q < here));
                    if before.contains_key(q) {
                        assert(prior.contains_key(q));
                        assert(taken[j] == prior[q]@[j]);
                    } else {
                        assert(!prior.contains_key(q));
                    }
                }
            }
        }
    }
    assert(segment_loaded(file@, *h, before, end as int, regions@)) by {
        assert forall|q: u64| h.spec_needs_page(q as int) implies q < page by {}
    }
}

/// Whether `regions` is the loaded image of the segments `headers`: it holds a
/// page exactly where a segment reaches into one, and every byte of every page is
/// the image's byte for its address.
pub open spec fn image_loaded(
    file: Seq<u8>,
    headers: Seq<ProgramHeader>,
    regions: Map<u64, [u8; 4096]>,
) -> bool {
    &&& forall|page: u64|
        #![trigger regions.contains_key(page)]
        #![trigger needs_page(headers, page as int)]
        regions.contains_key(page) <==> needs_page(headers, page as int)
    &&& forall|page: u64, j: int|
        #![trigger regions[page]@[j]]
        regions.contains_key(page) && 0 <= j < 4096 ==> regions[page]@[j] == image_byte(
            file,
            headers,
            page + j,
        )
}

/// Loading one more segment over the image of the segments before it gives the
/// image of them all.
pub proof fn lemma_load_step(
    file: Seq<u8>,
    headers: Seq<ProgramHeader>,
    h: ProgramHeader,
    before: Map<u64, [u8; 4096]>,
    after: Map<u64, [u8; 4096]>,
)
    requires
        image_loaded(file, headers, before),
        forall|i: int|
            0 <= i < headers.len() && (#[trigger] headers[i]).spec_is_load()
                ==> headers[i].file_size <= headers[i].mem_size,
        h.spec_is_load() ==> h.file_size <= h.mem_size && h.virt_addr + h.mem_size + 0xFFF
            <= u64::MAX && segment_loaded(file, h, before, h.virt_addr + h.mem_size, after),
        !h.spec_is_load() ==> after == before,
    ensures
        image_loaded(file, headers.push(h), after),
{
    let all = headers.push(h);
    assert(all.drop_last() =~= headers);
    assert(all.last() == h);
    assert forall|page: u64|
        #![trigger after.contains_key(page)]
        #![trigger needs_page(all, page as int)]
        after.contains_key(page) <==> needs_page(all, page as int) by {
        if needs_page(all, page as int) {
            let i = choose|i: int| 0 <= i < all.len() && (#[trigger] all[i]).spec_needs_page(page as int);
            if i < headers.len() {
                assert(headers[i].spec_needs_page(page as int));
                assert(needs_page(headers, page as int));
            }
        }
        if needs_page(headers, page as int) {
            let i = choose|i: int|
                0 <= i < headers.len() && (#[trigger] headers[i]).spec_needs_page(page as int);
            assert(all[i].spec_needs_page(page as int));
        }
        if h.spec_needs_page(page as int) {
            assert(all[headers.len() as int].spec_needs_page(page as int));
        }
    }
    assert forall|page: u64, j: int|
        #![trigger after[page]@[j]]
        after.contains_key(page) && 0 <= j < 4096 implies after[page]@[j] == image_byte(
        file,
        all,
        page + j,
    ) by {
        if h.spec_is_load() {
            if h.spec_needs_page(page as int) {
                if !before.contains_key(page) {
                    assert(page_of(page + j) == page);
                    lemma_image_zero_outside(file, headers, page + j);
                }
            } else {
                assert(before.contains_key(page));
                assert(page_of(page + j) == page);
                assert(!h.spec_has_byte(page + j));
            }
        }
    }
}

/// Index of the first loadable segment that cannot be loaded from the file.
fn find_bad_segment(headers: &Vec<ProgramHeader>, file_len: usize) -> (r: Option<usize>)
    ensures
        r == first_bad_segment(headers@, file_len as int),
{
    let mut k: usize = 0;
    while k < headers.len()
        invariant
            k <= headers@.len(),
            first_bad_segment(headers@.subrange(0, k as int), file_len as int) is None,
        decreases headers@.len() - k,
    {
        let ghost next = headers@.subrange(0, k + 1);
        assert(next.drop_last() =~= headers@.subrange(0, k as int));
        if headers[k].is_load() && !headers[k].loadable(file_len) {
            proof {
                lemma_bad_segment_found(headers@, file_len as int, k as int);
            }
            return Some(k);
        }
        k += 1;
    }
    assert(headers@.subrange(0, k as int) =~= headers@);
    None
}

/// The first bad segment of a table is the first bad segment of any of its
/// beginnings that holds one.
pub proof fn lemma_bad_segment_found(headers: Seq<ProgramHeader>, file_len: int, k: int)
    requires
        0 <= k < headers.len(),
        first_bad_segment(headers.subrange(0, k), file_len) is None,
        headers[k].spec_is_load() && !headers[k].spec_loadable(file_len),
    ensures
        first_bad_segment(headers, file_len) == Some(k as usize),
    decreases headers.len(),
{
    if k == headers.len() - 1 {
        assert(headers.drop_last() =~= headers.subrange(0, k));
    } else {
        assert(headers.drop_last().subrange(0, k) =~= headers.subrange(0, k));
        lemma_bad_segment_found(headers.drop_last(), file_len, k);
    }
}

/// The entry point that the file header names.
pub open spec fn spec_entry(file: Seq<u8>) -> u64 {
    le64(file, 24) as u64
}

/// The program headers of a file.
pub open spec fn spec_file_headers(file: Seq<u8>) -> Seq<ProgramHeader> {
    spec_program_headers(file, le64(file, 32), le16(file, 56) as nat)
}

/// The first reason for which a file cannot be loaded, if there is one: its file
/// header, the place of its program header table, one of its segments.
pub open spec fn spec_load_error(file: Seq<u8>) -> Option<ElfLoadError> {
    if file.len() < 64 {
        Some(ElfLoadError::Header(ElfVerifyError::BadSliceSize(file.len() as usize)))
    } else {
        match ElfHeader::spec_verify(file.subrange(0, 64)) {
            Some(e) => Some(ElfLoadError::Header(e)),
            None => if le64(file, 32) + 56 * le16(file, 56) > file.len() {
                Some(ElfLoadError::ProgramHeaderTable)
            } else {
                match first_bad_segment(spec_file_headers(file), file.len() as int) {
                    Some(i) => Some(ElfLoadError::Segment(i)),
                    None => None,
                }
            },
        }
    }
}

/// Loads an ELF file: the pages that its loadable segments fill, and its entry
/// point.
///
/// A page is returned for every 4 KiB page that a loadable segment reaches into,
/// from the page of its first address to that of its last. Each holds the file's
/// bytes where the file has some for the segment, at the offset of their address
/// in the page, and zero elsewhere; where segments overlap, the later one in the
/// table is on top. The file is turned down for its header, for a program header
/// table that leaves the file, and for a loadable segment that leaves the file, is
/// longer in the file than in memory or ends above the address space.
pub fn do_stuff(file: &[u8]) -> (r: Result<(Regions, u64), ElfLoadError>)
    ensures
        match r {
            Ok((regions, entry)) => spec_load_error(file@) is None && image_loaded(
                file@,
                spec_file_headers(file@),
                regions@,
            ) && entry == spec_entry(file@),
            Err(e) => spec_load_error(file@) == Some(e),
        },
{
    if file.len() < ELF_HEADER_SIZE {
        return Err(ElfLoadError::Header(ElfVerifyError::BadSliceSize(file.len())));
    }
    let head = vstd::slice::slice_subrange(file, 0, ELF_HEADER_SIZE);
    let header = match ElfHeader::from_slice(head) {
        Ok(h) => h,
        Err(e) => {
            return Err(ElfLoadError::Header(e));
        },
    };
    proof {
        lemma_header_fields(file@);
    }
    let headers = match program_headers(file, &header) {
        Ok(v) => v,
        Err(e) => {
            return Err(e);
        },
    };
    match find_bad_segment(&headers, file.len()) {
        Some(i) => {
            return Err(ElfLoadError::Segment(i));
        },
        None => {},
    }
    proof {
        lemma_no_bad_segment(headers@, file@.len() as int);
    }
    let mut regions: Regions = BTreeMap::new();
    let mut k: usize = 0;
    assert(headers@.subrange(0, 0) =~= Seq::<ProgramHeader>::empty());
    while k < headers.len()
        invariant
            k <= headers@.len(),
            forall|i: int|
                0 <= i < headers@.len() && (#[trigger] headers@[i]).spec_is_load()
                    ==> headers@[i].spec_loadable(file@.len() as int),
            image_loaded(file@, headers@.subrange(0, k as int), regions@),
        decreases headers@.len() - k,
    {
        let ghost before = regions@;
        let ghost done = headers@.subrange(0, k as int);
        if headers[k].is_load() {
            load_segment(file, &headers[k], &mut regions);
        }
        proof {
            assert(done.push(headers@[k as int]) =~= headers@.subrange(0, k + 1));
            lemma_load_step(file@, done, headers@[k as int], before, regions@);
        }
        k += 1;
    }
    assert(headers@.subrange(0, k as int) =~= headers@);
    Ok((regions, header.program_entry))
}

/// The fields of the first 64 bytes of a file are the fields at the same places
/// of the file.
pub proof fn lemma_header_fields(file: Seq<u8>)
    requires
        file.len() >= 64,
    ensures
        le64(file.subrange(0, 64), 24) == le64(file, 24),
        le64(file.subrange(0, 64), 32) == le64(file, 32),
        le16(file.subrange(0, 64), 56) == le16(file, 56),
{
}

/// Whether the numbers stand in strictly ascending order.
pub open spec fn spec_ascending(s: Seq<u64>) -> bool {
    forall|i: int, j: int| 0 <= i < j < s.len() ==> s[i] < s[j]
}

/// Puts `x` into the ascending numbers at its place.
fn insert_ascending(v: &mut Vec<u64>, x: u64)
    requires
        spec_ascending(old(v)@),
        !old(v)@.contains(x),
    ensures
        spec_ascending(final(v)@),
        final(v)@.len() == old(v)@.len() + 1,
        forall|y: u64| final(v)@.contains(y) <==> old(v)@.contains(y) || y == x,
{
    let mut i = v.len();
    while i > 0 && v[i - 1] > x
        invariant
            i <= v@.len(),
            v@ == old(v)@,
            forall|j: int| i <= j < v@.len() ==> x < v@[j],
        decreases i,
    {
        i -= 1;
    }
    let ghost before = v@;
    assert(i > 0 ==> before[i - 1] < x) by {
        if i > 0 {
            assert(before.contains(before[i - 1]));
        }
    }
    v.insert(i, x);
    assert(v@ == before.insert(i as int, x));
    assert forall|a: int, b: int| 0 <= a < b < v@.len() implies v@[a] < v@[b] by {
        let pa = if a < i {
            a
        } else {
            a - 1
        };
        let pb = if b < i {
            b
        } else {
            b - 1
        };
        if a != i && b != i {
            assert(v@[a] == before[pa] && v@[b] == before[pb]);
        } else if a == i {
            assert(v@[b] == before[pb]);
        } else {
            assert(v@[a] == before[pa]);
            if pa < i - 1 {
                assert(before[pa] < before[i - 1]);
            }
        }
    }
    assert forall|y: u64| v@.contains(y) <==> before.contains(y) || y == x by {
        if v@.contains(y) {
            let k = choose|k: int| 0 <= k < v@.len() && v@[k] == y;
            if k != i {
                assert(before[if k < i {
                    k
                } else {
                    k - 1
                }] == y);
            }
        }
        if before.contains(y) {
            let k = choose|k: int| 0 <= k < before.len() && before[k] == y;
            assert(v@[if k < i {
                k
            } else {
                k + 1
            }] == y);
        }
        if y == x {
            assert(v@[i as int] == x);
        }
    }
}

/// The addresses of the pages of an image, each once, as the map hands them out.
fn page_keys(regions: &Regions) -> (out: Vec<u64>)
    ensures
        out@.to_set() == regions@.dom(),
        out@.no_duplicates(),
{
    broadcast use vstd::std_specs::btree::group_btree_axioms;
    broadcast use vstd::laws_cmp::group_laws_cmp;

    let mut out: Vec<u64> = Vec::new();
    for k in it: regions.keys()
        invariant
            out@.len() == it.index(),
            forall|j: int| 0 <= j < out@.len() ==> out@[j] == *it.seq()[j],
            it.seq().unref().to_set() == regions@.dom(),
            it.seq().no_duplicates(),
            out@ =~= it.seq().unref().take(it.index()),
    {
        out.push(*k);
    }
    out
}

/// The addresses of the pages of an image in ascending order, each once.
pub fn page_addresses(regions: &Regions) -> (out: Vec<u64>)
    ensures
        spec_ascending(out@),
        out@.no_duplicates(),
        out@.to_set() == regions@.dom(),
        out@.len() == regions@.dom().len(),
{
    let keys = page_keys(regions);
    let mut out: Vec<u64> = Vec::new();
    let mut n: usize = 0;
    while n < keys.len()
        invariant
            n <= keys@.len(),
            keys@.no_duplicates(),
            spec_ascending(out@),
            out@.len() == n,
            forall|y: u64| out@.contains(y) <==> keys@.take(n as int).contains(y),
        decreases keys@.len() - n,
    {
        let k = keys[n];
        let ghost done = keys@.take(n as int);
        let ghost more = keys@.take(n + 1);
        assert(!out@.contains(k)) by {
            if done.contains(k) {
                let j = choose|j: int| 0 <= j < done.len() && done[j] == k;
                assert(keys@[j] == keys@[n as int]);
            }
        }
        insert_ascending(&mut out, k);
        assert forall|y: u64| out@.contains(y) <==> more.contains(y) by {
            if more.contains(y) {
                let j = choose|j: int| 0 <= j < more.len() && more[j] == y;
                if j < n {
                    assert(done[j] == y);
                }
            }
            if done.contains(y) {
                let j = choose|j: int| 0 <= j < done.len() && done[j] == y;
                assert(more[j] == y);
            }
            if y == k {
                assert(more[n as int] == y);
            }
        }
        n += 1;
    }
    proof {
        assert(keys@.take(keys@.len() as int) =~= keys@);
        assert(out@.to_set() =~= keys@.to_set());
        assert forall|i: int, j: int| 0 <= i < out@.len() && 0 <= j < out@.len() && i != j implies out@[i]
            != out@[j] by {
            if i < j {
                assert(out@[i] < out@[j]);
            } else {
                assert(out@[j] < out@[i]);
            }
        }
        out@.unique_seq_to_set();
    }
    out
}

} // verus!
