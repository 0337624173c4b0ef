//! FAT32, read only: the boot sector and the layout that follows from it, the
//! 32-byte directory entry, the scan of a directory cluster, and the walk that
//! builds the directory tree.
use vstd::prelude::*;
use vstd::utf8::{encode_utf8, valid_utf8};
use crate::bytes::{le16, le32, read_array, read_u16, read_u32, utf8_to_string};
use trees::Tree;

verus! {

/// Bytes of a boot sector that hold the fields read here.
pub const BOOT_SECTOR_SIZE: usize = 90;

/// Bytes in a directory entry.
pub const ENTRY_SIZE: usize = 32;

/// The FAT32 part of the boot sector.
#[derive(Debug, Clone, Copy, PartialEq, Eq)]
pub struct FatBootSector32Ext {
    pub table_size_32: u32,
    pub extended_flags: u16,
    pub fat_version: u16,
    pub root_cluster: u32,
    pub fat_info: u16,
    pub backup_boot_sector: u16,
    pub drive_number: u8,
    pub boot_signature: u8,
    pub volume_id: u32,
    pub volume_label: [u8; 11],
    pub fat_type_label: [u8; 8],
}

/// The boot sector of a FAT volume.
#[derive(Debug, Clone, Copy, PartialEq, Eq)]
pub struct FatBootSector {
    pub boot_jmp: [u8; 3],
    pub oem_name: [u8; 8],
    pub bytes_per_sector: u16,
    pub sectors_per_cluster: u8,
    pub reserved_sector_count: u16,
    pub table_count: u8,
    pub root_entry_count: u16,
    pub total_sectors_16: u16,
    pub media_type: u8,
    pub table_size_16: u16,
    pub sectors_per_track: u16,
    pub head_side_count: u16,
    pub hidden_sector_count: u32,
    pub total_sectors_32: u32,
    pub extended_section: FatBootSector32Ext,
}

impl FatBootSector {
    /// Whether every field is what the bytes spell at its place in the sector.
    pub open spec fn spec_parsed_from(self, b: Seq<u8>) -> bool
        recommends
            b.len() >= 90,
    {
        &&& self.boot_jmp@ == b.subrange(0, 3)
        &&& self.oem_name@ == b.subrange(3, 11)
        &&& self.bytes_per_sector == le16(b, 11)
        &&& self.sectors_per_cluster == b[13]
        &&& self.reserved_sector_count == le16(b, 14)
        &&& self.table_count == b[16]
        &&& self.root_entry_count == le16(b, 17)
        &&& self.total_sectors_16 == le16(b, 19)
        &&& self.media_type == b[21]
        &&& self.table_size_16 == le16(b, 22)
        &&& self.sectors_per_track == le16(b, 24)
        &&& self.head_side_count == le16(b, 26)
        &&& self.hidden_sector_count == le32(b, 28)
        &&& self.total_sectors_32 == le32(b, 32)
        &&& self.extended_section.table_size_32 == le32(b, 36)
        &&& self.extended_section.extended_flags == le16(b, 40)
        &&& self.extended_section.fat_version == le16(b, 42)
        &&& self.extended_section.root_cluster == le32(b, 44)
        &&& self.extended_section.fat_info == le16(b, 48)
        &&& self.extended_section.backup_boot_sector == le16(b, 50)
        &&& self.extended_section.drive_number == b[64]
        &&& self.extended_section.boot_signature == b[66]
        &&& self.extended_section.volume_id == le32(b, 67)
        &&& self.extended_section.volume_label@ == b.subrange(71, 82)
        &&& self.extended_section.fat_type_label@ == b.subrange(82, 90)
    }

    /// Reads the boot sector from the first bytes of sector 0.
    pub fn from_bytes(sector: &[u8]) -> (r: FatBootSector)
        requires
            sector@.len() >= 90,
        ensures
            r.spec_parsed_from(sector@),
    {
        FatBootSector {
            boot_jmp: read_array(sector, 0),
            oem_name: read_array(sector, 3),
            bytes_per_sector: read_u16(sector, 11),
            sectors_per_cluster: sector[13],
            reserved_sector_count: read_u16(sector, 14),
            table_count: sector[16],
            root_entry_count: read_u16(sector, 17),
            total_sectors_16: read_u16(sector, 19),
            media_type: sector[21],
            table_size_16: read_u16(sector, 22),
            sectors_per_track: read_u16(sector, 24),
            head_side_count: read_u16(sector, 26),
            hidden_sector_count: read_u32(sector, 28),
            total_sectors_32: read_u32(sector, 32),
            extended_section: FatBootSector32Ext {
                table_size_32: read_u32(sector, 36),
                extended_flags: read_u16(sector, 40),
                fat_version: read_u16(sector, 42),
                root_cluster: read_u32(sector, 44),
                fat_info: read_u16(sector, 48),
                backup_boot_sector: read_u16(sector, 50),
                drive_number: sector[64],
                boot_signature: sector[66],
                volume_id: read_u32(sector, 67),
                volume_label: read_array(sector, 71),
                fat_type_label: read_array(sector, 82),
            },
        }
    }

    /// Sectors in one file allocation table: the 16-bit field where it is not
    /// zero, else the 32-bit one.
    pub open spec fn spec_fat_size(self) -> int {
        if self.table_size_16 == 0 {
            self.extended_section.table_size_32 as int
        } else {
            self.table_size_16 as int
        }
    }

    /// Sectors that the fixed root directory takes.
    pub open spec fn spec_root_dir_sectors(self) -> int
        recommends
            self.bytes_per_sector > 0,
    {
        (self.root_entry_count * 32 + self.bytes_per_sector - 1) / (self.bytes_per_sector as int)
    }

    /// The first sector of the data region.
    pub open spec fn spec_first_data_sector(self) -> int
        recommends
            self.bytes_per_sector > 0,
    {
        self.reserved_sector_count + self.table_count * self.spec_fat_size()
            + self.spec_root_dir_sectors()
    }

    /// The first sector of cluster `cluster`.
    pub open spec fn spec_first_sector_of(self, cluster: u32) -> int
        recommends
            self.bytes_per_sector > 0,
            cluster >= 2,
    {
        (cluster - 2) * self.sectors_per_cluster + self.spec_first_data_sector()
    }

    /// Whether the layout can be computed: sectors and clusters are not empty.
    pub open spec fn spec_usable(self) -> bool {
        self.bytes_per_sector > 0 && self.sectors_per_cluster > 0
    }

    /// Whether the layout can be computed.
    pub fn usable(&self) -> (r: bool)
        ensures
            r == self.spec_usable(),
    {
        self.bytes_per_sector > 0 && self.sectors_per_cluster > 0
    }

    /// Sectors in one file allocation table.
    pub fn fat_size(&self) -> (r: u32)
        ensures
            r == self.spec_fat_size(),
    {
        if self.table_size_16 == 0 {
            self.extended_section.table_size_32
        } else {
            self.table_size_16 as u32
        }
    }

    /// Sectors that the fixed root directory takes.
    pub fn root_dir_sectors(&self) -> (r: u32)
        requires
            self.bytes_per_sector > 0,
        ensures
            r == self.spec_root_dir_sectors(),
    {
        (self.root_entry_count as u32 * 32 + self.bytes_per_sector as u32 - 1)
            / self.bytes_per_sector as u32
    }

    /// The first sector of the data region.
    pub fn first_data_sector(&self) -> (r: u64)
        requires
            self.bytes_per_sector > 0,
        ensures
            r == self.spec_first_data_sector(),
    {
        let count = self.table_count as u64;
        let size = self.fat_size() as u64;
        assert(count * size <= 0xFF * 0xFFFF_FFFF) by (nonlinear_arith)
            requires
                count <= 0xFF,
                size <= 0xFFFF_FFFF,
        ;
        self.reserved_sector_count as u64 + count * size + self.root_dir_sectors() as u64
    }

    /// The first sector of cluster `cluster`.
    pub fn first_sector_of(&self, cluster: u32) -> (r: u64)
        requires
            self.bytes_per_sector > 0,
            cluster >= 2,
        ensures
            r == self.spec_first_sector_of(cluster),
    {
        let index = (cluster - 2) as u64;
        let per = self.sectors_per_cluster as u64;
        assert(index * per <= 0xFFFF_FFFF * 0xFF) by (nonlinear_arith)
            requires
                index <= 0xFFFF_FFFF,
                per <= 0xFF,
        ;
        assert(self.table_count * self.spec_fat_size() <= 0xFF * 0xFFFF_FFFF) by (nonlinear_arith)
            requires
                0 <= self.table_count <= 0xFF,
                0 <= self.spec_fat_size() <= 0xFFFF_FFFF,
        ;
        index * per + self.first_data_sector()
    }
}

/// The attribute byte of a directory entry.
#[derive(Debug, Clone, Copy, PartialEq, Eq, Structural)]
pub struct FileAttributes(pub u8);

impl FileAttributes {
    /// The attribute byte that marks a piece of a long file name.
    pub const LONG_NAME: u8 = 0x0F;

    /// Bit `bit` of the byte, as 0 or 1.
    pub open spec fn spec_bit(self, bit: nat) -> int {
        (self.0 as int / vstd::arithmetic::power2::pow2(bit) as int) % 2
    }

    pub open spec fn spec_read_only(self) -> int {
        self.0 as int % 2
    }

    pub open spec fn spec_hidden(self) -> int {
        self.0 as int / 2 % 2
    }

    pub open spec fn spec_system(self) -> int {
        self.0 as int / 4 % 2
    }

    pub open spec fn spec_volume_id(self) -> int {
        self.0 as int / 8 % 2
    }

    pub open spec fn spec_directory(self) -> int {
        self.0 as int / 16 % 2
    }

    pub open spec fn spec_archive(self) -> int {
        self.0 as int / 32 % 2
    }

    /// The attributes that the byte spells.
    pub fn from_bits(bits: u8) -> (r: FileAttributes)
        ensures
            r.0 == bits,
    {
        FileAttributes(bits)
    }

    /// The byte that spells the attributes.
    pub fn into_bits(self) -> (r: u8)
        ensures
            r == self.0,
    {
        self.0
    }

    pub fn read_only(&self) -> (r: usize)
        ensures
            r == self.spec_read_only(),
    {
        (self.0 % 2) as usize
    }

    pub fn hidden(&self) -> (r: usize)
        ensures
            r == self.spec_hidden(),
    {
        (self.0 / 2 % 2) as usize
    }

    pub fn system(&self) -> (r: usize)
        ensures
            r == self.spec_system(),
    {
        (self.0 / 4 % 2) as usize
    }

    pub fn volume_id(&self) -> (r: usize)
        ensures
            r == self.spec_volume_id(),
    {
        (self.0 / 8 % 2) as usize
    }

    pub fn directory(&self) -> (r: usize)
        ensures
            r == self.spec_directory(),
    {
        (self.0 / 16 % 2) as usize
    }

    pub fn archive(&self) -> (r: usize)
        ensures
            r == self.spec_archive(),
    {
        (self.0 / 32 % 2) as usize
    }
}

/// A time of day as a directory entry holds it: two-second steps in the low five
/// bits, minutes in the next six, hours in the top five.
#[derive(Debug, Clone, Copy, PartialEq, Eq, Structural)]
pub struct FileTime(pub u16);

impl FileTime {
    pub open spec fn spec_seconds(self) -> int {
        self.0 as int % 32
    }

    pub open spec fn spec_minutes(self) -> int {
        self.0 as int / 32 % 64
    }

    pub open spec fn spec_hours(self) -> int {
        self.0 as int / 2048
    }

    pub fn from_bits(bits: u16) -> (r: FileTime)
        ensures
            r.0 == bits,
    {
        FileTime(bits)
    }

    pub fn into_bits(self) -> (r: u16)
        ensures
            r == self.0,
    {
        self.0
    }

    pub fn seconds(&self) -> (r: usize)
        ensures
            r == self.spec_seconds(),
    {
        (self.0 % 32) as usize
    }

    pub fn minutes(&self) -> (r: usize)
        ensures
            r == self.spec_minutes(),
    {
        (self.0 / 32 % 64) as usize
    }

    pub fn hours(&self) -> (r: usize)
        ensures
            r == self.spec_hours(),
    {
        (self.0 / 2048) as usize
    }
}

/// A date as a directory entry holds it: the day in the low five bits, the month
/// in the next four, the years since 1980 in the top seven.
#[derive(Debug, Clone, Copy, PartialEq, Eq, Structural)]
pub struct FileDate(pub u16);

impl FileDate {
    pub open spec fn spec_day(self) -> int {
        self.0 as int % 32
    }

    pub open spec fn spec_month(self) -> int {
        self.0 as int / 32 % 16
    }

    pub open spec fn spec_year(self) -> int {
        self.0 as int / 512
    }

    pub fn from_bits(bits: u16) -> (r: FileDate)
        ensures
            r.0 == bits,
    {
        FileDate(bits)
    }

    pub fn into_bits(self) -> (r: u16)
        ensures
            r == self.0,
    {
        self.0
    }

    pub fn day(&self) -> (r: usize)
        ensures
            r == self.spec_day(),
    {
        (self.0 % 32) as usize
    }

    pub fn month(&self) -> (r: usize)
        ensures
            r == self.spec_month(),
    {
        (self.0 / 32 % 16) as usize
    }

    pub fn year(&self) -> (r: usize)
        ensures
            r == self.spec_year(),
    {
        (self.0 / 512) as usize
    }
}

/// A short directory entry: a file or a directory of the volume.
#[derive(Debug, Clone, Copy, PartialEq, Eq)]
pub struct File {
    pub name: [u8; 11],
    pub attributes: FileAttributes,
    pub reserved: u8,
    pub creation_duration: u8,
    pub creation_time: FileTime,
    pub creation_date: FileDate,
    pub last_accessed: FileDate,
    pub cluster_h: u16,
    pub modified_time: FileTime,
    pub modified_date: FileDate,
    pub cluster_l: u16,
    pub file_size: u32,
}

/// Why the volume could not be read.
#[derive(Debug, Clone, Copy, PartialEq, Eq, Structural)]
pub enum FsError {
    /// Sector 0 is shorter than a boot sector, or gives sectors or clusters no size.
    BootSector,
    /// A cluster number is below 2.
    InvalidCluster,
    /// Sectors were handed over with less in them than was asked for: not one
    /// entry of a directory, or not the entry of the allocation table.
    ShortRead,
}

/// The name of the directory entry for the directory itself.
pub open spec fn spec_dot_name() -> Seq<u8> {
    seq![0x2Eu8, 0x20u8, 0x20u8, 0x20u8, 0x20u8, 0x20u8, 0x20u8, 0x20u8, 0x20u8, 0x20u8, 0x20u8]
}

/// The name of the directory entry for the parent directory.
pub open spec fn spec_dot_dot_name() -> Seq<u8> {
    seq![0x2Eu8, 0x2Eu8, 0x20u8, 0x20u8, 0x20u8, 0x20u8, 0x20u8, 0x20u8, 0x20u8, 0x20u8, 0x20u8]
}

impl File {
    /// The entry that the 32 bytes at `at` spell.
    pub open spec fn spec_parse(b: Seq<u8>, at: int) -> File {
        File {
            name: [
                b[at],
                b[at + 1],
                b[at + 2],
                b[at + 3],
                b[at + 4],
                b[at + 5],
                b[at + 6],
                b[at + 7],
                b[at + 8],
                b[at + 9],
                b[at + 10],
            ],
            attributes: FileAttributes(b[at + 11]),
            reserved: b[at + 12],
            creation_duration: b[at + 13],
            creation_time: FileTime(le16(b, at + 14) as u16),
            creation_date: FileDate(le16(b, at + 16) as u16),
            last_accessed: FileDate(le16(b, at + 18) as u16),
            cluster_h: le16(b, at + 20) as u16,
            modified_time: FileTime(le16(b, at + 22) as u16),
            modified_date: FileDate(le16(b, at + 24) as u16),
            cluster_l: le16(b, at + 26) as u16,
            file_size: le32(b, at + 28) as u32,
        }
    }

    /// The entry that stands for the root directory: every field zero.
    pub open spec fn spec_root() -> File {
        File {
            name: [0u8, 0u8, 0u8, 0u8, 0u8, 0u8, 0u8, 0u8, 0u8, 0u8, 0u8],
            attributes: FileAttributes(0),
            reserved: 0,
            creation_duration: 0,
            creation_time: FileTime(0),
            creation_date: FileDate(0),
            last_accessed: FileDate(0),
            cluster_h: 0,
            modified_time: FileTime(0),
            modified_date: FileDate(0),
            cluster_l: 0,
            file_size: 0,
        }
    }

    /// The number of the first cluster of the entry's data.
    pub open spec fn spec_data_addr(self) -> int {
        self.cluster_l + 0x1_0000 * self.cluster_h
    }

    /// Whether the entry is a directory.
    pub open spec fn spec_is_directory(self) -> bool {
        self.attributes.spec_directory() == 1
    }

    /// Reads the entry at `at`.
    pub fn from_bytes(bytes: &[u8], at: usize) -> (r: File)
        requires
            at + 32 <= bytes@.len(),
        ensures
            r == Self::spec_parse(bytes@, at as int),
    {
        let _n = bytes.len();
        let name: [u8; 11] = read_array(bytes, at);
        let r = File {
            name,
            attributes: FileAttributes(bytes[at + 11]),
            reserved: bytes[at + 12],
            creation_duration: bytes[at + 13],
            creation_time: FileTime(read_u16(bytes, at + 14)),
            creation_date: FileDate(read_u16(bytes, at + 16)),
            last_accessed: FileDate(read_u16(bytes, at + 18)),
            cluster_h: read_u16(bytes, at + 20),
            modified_time: FileTime(read_u16(bytes, at + 22)),
            modified_date: FileDate(read_u16(bytes, at + 24)),
            cluster_l: read_u16(bytes, at + 26),
            file_size: read_u32(bytes, at + 28),
        };
        assert(r.name =~= Self::spec_parse(bytes@, at as int).name);
        r
    }

    /// The entry that stands for the root directory.
    pub fn root() -> (r: File)
        ensures
            r == Self::spec_root(),
    {
        let r = File {
            name: [0u8; 11],
            attributes: FileAttributes(0),
            reserved: 0,
            creation_duration: 0,
            creation_time: FileTime(0),
            creation_date: FileDate(0),
            last_accessed: FileDate(0),
            cluster_h: 0,
            modified_time: FileTime(0),
            modified_date: FileDate(0),
            cluster_l: 0,
            file_size: 0,
        };
        assert(r.name =~= Self::spec_root().name);
        r
    }

    /// Whether the entry has a name that can be had as a string: it is the root,
    /// whose name starts with a zero byte, or the eleven bytes of its name are
    /// valid UTF-8.
    pub open spec fn spec_name_valid(self) -> bool {
        self.name@[0] == 0 || valid_utf8(self.name@)
    }

    /// Whether the entry has a name that can be had as a string.
    pub fn name_valid(&self) -> (r: bool)
        ensures
            r == self.spec_name_valid(),
    {
        self.name[0] == 0 || utf8_to_string(vstd::array::array_as_slice(&self.name)).is_some()
    }

    /// The name of the entry: `/` for the root, whose name starts with a zero byte,
    /// else the eleven bytes of the name as a string. The bytes of the name must
    /// be valid UTF-8; `name_valid` tells.
    pub fn get_name(&self) -> (r: String)
        requires
            self.spec_name_valid(),
        ensures
            self.name@[0] == 0 ==> r@ == "/"@,
            self.name@[0] != 0 ==> encode_utf8(r@) == self.name@,
    {
        if self.name[0] == 0 {
            "/".to_owned()
        } else {
            utf8_to_string(vstd::array::array_as_slice(&self.name)).unwrap()
        }
    }

    /// The number of the first cluster of the entry's data.
    pub fn get_data_addr(&self) -> (r: u32)
        ensures
            r == self.spec_data_addr(),
    {
        self.cluster_l as u32 + 0x1_0000 * (self.cluster_h as u32)
    }

    /// Whether the entry is a directory.
    pub fn is_directory(&self) -> (r: bool)
        ensures
            r == self.spec_is_directory(),
    {
        self.attributes.directory() == 1
    }
}

impl Default for File {
    fn default() -> (r: File)
        ensures
            r == File::spec_root(),
    {
        File::root()
    }
}

/// `trees::Tree`: a node with its data and the ordered list of its child trees.
#[verifier::external_type_specification]
#[verifier::external_body]
#[verifier::reject_recursive_types(T)]
pub struct ExTree<T>(trees::Tree<T>);

/// The nodes of a tree of directory entries in depth-first order, parents before
/// children and children in their order, each with its depth below the root.
pub uninterp spec fn tree_nodes(t: Tree<File>) -> Seq<(nat, File)>;

/// The nodes of a tree, each one level deeper: the tree as a child.
pub open spec fn deepen(nodes: Seq<(nat, File)>) -> Seq<(nat, File)> {
    nodes.map_values(|n: (nat, File)| (n.0 + 1, n.1))
}

/// `Tree::new`: a tree of the one node, its root, with the given data.
#[verifier::external_body]
fn tree_new(data: File) -> (t: Tree<File>)
    ensures
        tree_nodes(t) == seq![(0nat, data)],
{
    Tree::new(data)
}

/// `Tree::push_back`: the second tree becomes the last child of the root of the
/// first, with all that is below it.
#[verifier::external_body]
fn tree_push_back(parent: &mut Tree<File>, child: Tree<File>)
    ensures
        tree_nodes(*final(parent)) == tree_nodes(*old(parent)) + deepen(tree_nodes(child)),
{
    parent.push_back(child)
}

/// The directory tree of a volume.
pub struct FileSystem(pub Tree<File>);

impl FileSystem {
    /// The tree, with the root directory as its root.
    pub fn as_tree(&self) -> (r: &Tree<File>)
        ensures
            *r == self.0,
    {
        &self.0
    }
}

/// What a directory entry is to the scan of a directory.
#[derive(Debug, Clone, Copy, PartialEq, Eq, Structural)]
pub enum EntryKind {
    /// The end of the directory: the first byte is zero.
    End,
    /// A deleted entry: the first byte is 0xE5.
    Deleted,
    /// A piece of a long file name: the attribute byte is 0x0F.
    LongName,
    /// An entry whose name is not valid UTF-8.
    BadName,
    /// The entry for the directory itself or for its parent.
    Dot,
    /// A directory.
    Directory,
    /// A file.
    Plain,
}

/// What the 32 bytes at `at` are to the scan of a directory. The tests are made in
/// the order of the kinds.
pub open spec fn spec_classify(b: Seq<u8>, at: int) -> EntryKind {
    if b[at] == 0 {
        EntryKind::End
    } else if b[at] == 0xE5 {
        EntryKind::Deleted
    } else if b[at + 11] == 0x0F {
        EntryKind::LongName
    } else if !valid_utf8(b.subrange(at, at + 11)) {
        EntryKind::BadName
    } else if b.subrange(at, at + 11) == spec_dot_name() || b.subrange(at, at + 11)
        == spec_dot_dot_name() {
        EntryKind::Dot
    } else if File::spec_parse(b, at).spec_is_directory() {
        EntryKind::Directory
    } else {
        EntryKind::Plain
    }
}

/// Whether the name is that of the entry for the directory itself or its parent.
fn is_dot_name(name: &[u8; 11]) -> (r: bool)
    ensures
        r == (name@ == spec_dot_name() || name@ == spec_dot_dot_name()),
{
    if name[0] != 0x2E {
        assert(spec_dot_name()[0] == 0x2E && spec_dot_dot_name()[0] == 0x2E);
        return false;
    }
    if name[1] != 0x2E && name[1] != 0x20 {
        assert(spec_dot_name()[1] == 0x20 && spec_dot_dot_name()[1] == 0x2E);
        return false;
    }
    let mut k: usize = 2;
    while k < 11
        invariant
            2 <= k <= 11,
            forall|j: int| 2 <= j < k ==> name@[j] == 0x20,
        decreases 11 - k,
    {
        if name[k] != 0x20 {
            assert(spec_dot_name()[k as int] == 0x20 && spec_dot_dot_name()[k as int] == 0x20);
            return false;
        }
        k += 1;
    }
    if name[1] == 0x2E {
        assert(name@ =~= spec_dot_dot_name());
        assert(spec_dot_name()[1] == 0x20);
    } else {
        assert(name@ =~= spec_dot_name());
        assert(spec_dot_dot_name()[1] == 0x2E);
    }
    true
}

/// What the entry at `at` is to the scan of a directory.
pub fn classify(data: &[u8], at: usize) -> (r: EntryKind)
    requires
        at + 32 <= data@.len(),
    ensures
        r == spec_classify(data@, at as int),
{
    let _n = data.len();
    if data[at] == 0 {
        return EntryKind::End;
    }
    if data[at] == 0xE5 {
        return EntryKind::Deleted;
    }
    if data[at + 11] == FileAttributes::LONG_NAME {
        return EntryKind::LongName;
    }
    let file = File::from_bytes(data, at);
    assert(file.name@ =~= data@.subrange(at as int, at + 11));
    if utf8_to_string(vstd::array::array_as_slice(&file.name)).is_none() {
        return EntryKind::BadName;
    }
    if is_dot_name(&file.name) {
        return EntryKind::Dot;
    }
    if file.is_directory() {
        EntryKind::Directory
    } else {
        EntryKind::Plain
    }
}

/// A volume: the drive it is on and its boot sector.
#[derive(Debug, Clone, Copy, PartialEq, Eq)]
pub struct Volume {
    pub drive_num: usize,
    pub boot_sector: FatBootSector,
}

/// The entries of the allocation table from this number on mark the end of a
/// chain of clusters.
pub const END_OF_CHAIN: u32 = 0x0FFF_FFF8;

/// One more than the highest number that an entry of the allocation table holds
/// in its low 28 bits.
pub const CLUSTER_MODULUS: u32 = 0x1000_0000;

impl FatBootSector {
    /// The sector that holds the entry of cluster `cluster` in the first
    /// allocation table.
    pub open spec fn spec_fat_sector_of(self, cluster: u32) -> int
        recommends
            self.bytes_per_sector > 0,
    {
        self.reserved_sector_count + (cluster * 4) / (self.bytes_per_sector as int)
    }

    /// The offset of that entry in its sector.
    pub open spec fn spec_fat_offset_of(self, cluster: u32) -> int
        recommends
            self.bytes_per_sector > 0,
    {
        (cluster * 4) % (self.bytes_per_sector as int)
    }

    /// The cluster that follows `cluster` in its chain, from the bytes of the
    /// sector that holds its entry: the low 28 bits of the entry.
    pub open spec fn spec_next_cluster(self, cluster: u32, sector: Seq<u8>) -> int {
        le32(sector, self.spec_fat_offset_of(cluster)) % (CLUSTER_MODULUS as int)
    }

    /// The sector that holds the entry of cluster `cluster` in the first
    /// allocation table.
    pub fn fat_sector_of(&self, cluster: u32) -> (r: u64)
        requires
            self.bytes_per_sector > 0,
        ensures
            r == self.spec_fat_sector_of(cluster),
    {
        self.reserved_sector_count as u64 + (cluster as u64 * 4) / (self.bytes_per_sector as u64)
    }

    /// The offset of that entry in its sector.
    pub fn fat_offset_of(&self, cluster: u32) -> (r: usize)
        requires
            self.bytes_per_sector > 0,
        ensures
            r == self.spec_fat_offset_of(cluster),
    {
        ((cluster as u64 * 4) % (self.bytes_per_sector as u64)) as usize
    }
}

/// Whether the scan of a directory cluster from `at` on meets no entry that ends
/// it by force: whether every entry before the first end marker, as far as the
/// bytes reach, is neither a piece of a long file name nor an entry whose name is
/// not valid UTF-8.
pub open spec fn spec_clean_from(data: Seq<u8>, at: int) -> bool
    decreases data.len() - at,
{
    if at < 0 || at + 32 > data.len() {
        true
    } else {
        match spec_classify(data, at) {
            EntryKind::End => true,
            EntryKind::LongName => false,
            EntryKind::BadName => false,
            _ => spec_clean_from(data, at + 32),
        }
    }
}

/// Whether the scan of a directory cluster meets no long-file-name entry and no
/// name that is not valid UTF-8 before its first end marker.
pub fn cluster_admitted(data: &[u8]) -> (r: bool)
    ensures
        r == spec_clean_from(data@, 0),
{
    let n = data.len();
    let mut at: usize = 0;
    while n >= ENTRY_SIZE && at <= n - ENTRY_SIZE
        invariant
            n == data@.len(),
            spec_clean_from(data@, 0) == spec_clean_from(data@, at as int),
        decreases n - at,
    {
        match classify(data, at) {
            EntryKind::End => {
                return true;
            },
            EntryKind::LongName => {
                return false;
            },
            EntryKind::BadName => {
                return false;
            },
            _ => {},
        }
        at += ENTRY_SIZE;
    }
    true
}

/// One directory on the way from the root to the directory that is being read.
pub struct Frame {
    /// The directory, with the entries found in it so far and all below them.
    pub tree: Tree<File>,
    /// The cluster that is being read, or was read last.
    pub cluster: u32,
    /// The bytes of that cluster, once they were handed over.
    pub data: Option<Vec<u8>>,
    /// Offset of the next entry in those bytes.
    pub at: usize,
    /// Set once the cluster was read to its end: the sectors asked for next are
    /// those of the allocation table, for the cluster that follows.
    pub chain: bool,
}

/// A frame as plain values.
pub struct FrameView {
    pub nodes: Seq<(nat, File)>,
    pub cluster: u32,
    pub data: Option<Seq<u8>>,
    pub at: int,
    pub chain: bool,
}

impl Frame {
    /// The frame as plain values.
    pub open spec fn model(self) -> FrameView {
        FrameView {
            nodes: tree_nodes(self.tree),
            cluster: self.cluster,
            data: match self.data {
                Some(d) => Some(d@),
                None => None,
            },
            at: self.at as int,
            chain: self.chain,
        }
    }
}

/// A walk as plain values.
pub struct WalkView {
    pub volume: Volume,
    /// The directories from the root to the one that is being read.
    pub stack: Seq<FrameView>,
    pub finished: bool,
    pub failed: Option<FsError>,
}

/// What the driver of a walk does next.
#[derive(Debug, Clone, Copy, PartialEq, Eq)]
pub enum WalkAction {
    /// Read the sectors of a directory cluster and hand them over.
    Read { drive_num: usize, first_sector: u64, sector_count: u16 },
    /// Read the one sector of the allocation table and hand it over.
    ReadFat { drive_num: usize, sector: u64 },
    /// Call `step`.
    Step,
    /// Stop: the tree is complete.
    Done,
    /// Stop: the volume cannot be read.
    Failed(FsError),
}

impl WalkView {
    /// The walk has at least the root on its stack, and no directory that is
    /// being read holds, from its next entry to its end marker, an entry that the
    /// scan cannot take.
    pub open spec fn wf(self) -> bool {
        &&& self.stack.len() >= 1
        &&& forall|i: int|
            0 <= i < self.stack.len() ==> match (#[trigger] self.stack[i]).data {
                Some(d) => 0 <= self.stack[i].at && spec_clean_from(d, self.stack[i].at),
                None => true,
            }
    }

    /// Whether the walk has come to an end, one way or the other.
    pub open spec fn spec_stopped(self) -> bool {
        self.finished || self.failed is Some
    }

    /// The walk, failed.
    pub open spec fn spec_fail(self, e: FsError) -> WalkView {
        WalkView { failed: Some(e), ..self }
    }

    /// The walk with another frame in place of the topmost.
    pub open spec fn spec_replace_top(self, top: FrameView) -> WalkView {
        WalkView { stack: self.stack.drop_last().push(top), ..self }
    }

    /// The walk after the directory that is being read has come to its end: it
    /// becomes the last child of its parent, and the end of the root ends the
    /// walk.
    pub open spec fn spec_close(self) -> WalkView {
        let top = self.stack.last();
        let rest = self.stack.drop_last();
        if rest.len() == 0 {
            WalkView { finished: true, ..self }
        } else {
            let parent = rest.last();
            WalkView {
                stack: rest.drop_last().push(
                    FrameView { nodes: parent.nodes + deepen(top.nodes), ..parent },
                ),
                ..self
            }
        }
    }

    /// What the driver does next.
    pub open spec fn spec_action(self) -> WalkAction {
        let top = self.stack.last();
        if self.failed is Some {
            WalkAction::Failed(self.failed.unwrap())
        } else if self.finished {
            WalkAction::Done
        } else if top.data is None {
            if top.chain {
                WalkAction::ReadFat {
                    drive_num: self.volume.drive_num,
                    sector: self.volume.boot_sector.spec_fat_sector_of(top.cluster) as u64,
                }
            } else if top.cluster < 2 {
                WalkAction::Failed(FsError::InvalidCluster)
            } else {
                WalkAction::Read {
                    drive_num: self.volume.drive_num,
                    first_sector: self.volume.boot_sector.spec_first_sector_of(top.cluster) as u64,
                    sector_count: self.volume.boot_sector.sectors_per_cluster as u16,
                }
            }
        } else {
            WalkAction::Step
        }
    }

    /// Whether the walk waits for the sectors of a directory cluster.
    pub open spec fn spec_awaits_cluster(self) -> bool {
        !self.spec_stopped() && self.stack.last().data is None && !self.stack.last().chain
    }

    /// The walk after the sectors that it asked for were handed over.
    ///
    /// The sectors of a directory cluster are taken as the bytes to scan next;
    /// fewer than one entry fail the walk. The sector of the allocation table
    /// gives the cluster that follows the one read last, in the low 28 bits of
    /// its entry: from the end-of-chain mark on the directory has come to its
    /// end; a number below 2 fails the walk; any other is the cluster to read
    /// next. A sector that does not reach to the entry fails the walk. Sectors
    /// that were not asked for change nothing.
    pub open spec fn spec_feed(self, data: Seq<u8>) -> WalkView {
        let top = self.stack.last();
        let boot = self.volume.boot_sector;
        if self.spec_stopped() || top.data is Some {
            self
        } else if top.chain {
            if boot.spec_fat_offset_of(top.cluster) + 4 > data.len() {
                self.spec_fail(FsError::ShortRead)
            } else if boot.spec_next_cluster(top.cluster, data) >= END_OF_CHAIN {
                self.spec_close()
            } else if boot.spec_next_cluster(top.cluster, data) < 2 {
                self.spec_fail(FsError::InvalidCluster)
            } else {
                self.spec_replace_top(
                    FrameView {
                        cluster: boot.spec_next_cluster(top.cluster, data) as u32,
                        data: None,
                        at: 0,
                        chain: false,
                        ..top
                    },
                )
            }
        } else if data.len() < 32 {
            self.spec_fail(FsError::ShortRead)
        } else {
            self.spec_replace_top(FrameView { data: Some(data), at: 0, ..top })
        }
    }

    /// The walk after the next entry of the directory that is being read was
    /// dealt with.
    ///
    /// Past the last entry of the cluster the walk turns to the allocation table
    /// for the cluster that follows. The end marker closes the directory. Deleted
    /// entries and the entries for the directory itself and its parent are passed
    /// over. A file becomes the last child of the directory; a directory is
    /// opened on top of it, to be read from its first cluster. (A long-file-name
    /// entry and a name that is not valid UTF-8 are not dealt with: a walk that
    /// is well formed never stands at one.)
    pub open spec fn spec_step(self) -> WalkView {
        let top = self.stack.last();
        let rest = self.stack.drop_last();
        if self.spec_stopped() || top.data is None {
            self
        } else {
            let d = top.data.unwrap();
            let passed = FrameView { at: top.at + 32, ..top };
            if top.at + 32 > d.len() {
                self.spec_replace_top(FrameView { data: None, at: 0, chain: true, ..top })
            } else {
                match spec_classify(d, top.at) {
                    EntryKind::End => self.spec_close(),
                    EntryKind::Deleted => self.spec_replace_top(passed),
                    EntryKind::Dot => self.spec_replace_top(passed),
                    EntryKind::LongName => self,
                    EntryKind::BadName => self,
                    EntryKind::Plain => self.spec_replace_top(
                        FrameView {
                            nodes: top.nodes.push((1nat, File::spec_parse(d, top.at))),
                            at: top.at + 32,
                            ..top
                        },
                    ),
                    EntryKind::Directory => WalkView {
                        stack: rest.push(passed).push(
                            FrameView {
                                nodes: seq![(0nat, File::spec_parse(d, top.at))],
                                cluster: File::spec_parse(d, top.at).spec_data_addr() as u32,
                                data: None,
                                at: 0,
                                chain: false,
                            },
                        ),
                        ..self
                    },
                }
            }
        }
    }

    /// Whether the next thing for the driver to do is to call `step`.
    pub open spec fn spec_can_step(self) -> bool {
        !self.spec_stopped() && self.stack.len() >= 1 && self.stack.last().data is Some
    }

    /// Whether the entry that the walk stands at is one that the scan can take.
    pub open spec fn spec_cursor_admitted(self) -> bool {
        let top = self.stack.last();
        top.at + 32 > top.data.unwrap().len() || (spec_classify(top.data.unwrap(), top.at)
            != EntryKind::LongName && spec_classify(top.data.unwrap(), top.at)
            != EntryKind::BadName)
    }

    /// A bound on the steps that the walk can take before it asks for sectors.
    pub open spec fn spec_work(self) -> nat {
        if self.spec_stopped() {
            0
        } else {
            spec_stack_work(self.stack)
        }
    }

    /// The walk after as many steps as it can take without new sectors: it has
    /// ended then, or waits for sectors.
    pub open spec fn spec_settle(self) -> WalkView
        decreases self.spec_work(),
    {
        if self.spec_can_step() && self.spec_cursor_admitted() {
            proof {
                lemma_step_work(self);
            }
            self.spec_step().spec_settle()
        } else {
            self
        }
    }
}

impl FrameView {
    /// A bound on the steps that the walk can take in this directory before it
    /// asks for sectors: none while it waits for sectors, else the entries still
    /// to come and two.
    pub open spec fn spec_work(self) -> nat {
        match self.data {
            Some(d) => if self.at <= d.len() {
                ((d.len() - self.at) / 32 + 2) as nat
            } else {
                2
            },
            None => 0,
        }
    }
}

/// A bound on the steps that a walk with this stack can take before it asks for
/// sectors.
pub open spec fn spec_stack_work(stack: Seq<FrameView>) -> nat
    decreases stack.len(),
{
    if stack.len() == 0 {
        0
    } else {
        spec_stack_work(stack.drop_last()) + stack.last().spec_work()
    }
}

/// Every step that a walk can take brings it nearer to the point where it ends
/// or asks for sectors.
pub proof fn lemma_step_work(v: WalkView)
    requires
        v.spec_can_step(),
        v.spec_cursor_admitted(),
    ensures
        v.spec_step().spec_work() < v.spec_work(),
        v.spec_step().stack.len() >= 1,
{
    let top = v.stack.last();
    let rest = v.stack.drop_last();
    let after = v.spec_step();
    assert(spec_stack_work(v.stack) == spec_stack_work(rest) + top.spec_work());
    assert(top.spec_work() >= 2);
    if !after.spec_stopped() {
        let d = top.data.unwrap();
        if top.at + 32 > d.len() {
            assert(after.stack.drop_last() =~= rest);
        } else {
            match spec_classify(d, top.at) {
                EntryKind::End => {
                    let parent = rest.last();
                    assert(after.stack.drop_last() =~= rest.drop_last());
                    assert(after.stack.last().spec_work() == parent.spec_work());
                    assert(spec_stack_work(rest) == spec_stack_work(rest.drop_last())
                        + parent.spec_work());
                },
                EntryKind::Directory => {
                    let lower = after.stack.drop_last();
                    assert(lower.drop_last() =~= rest);
                    assert(spec_stack_work(lower) == spec_stack_work(rest)
                        + lower.last().spec_work());
                    assert(lower.last().spec_work() < top.spec_work());
                },
                _ => {
                    assert(after.stack.drop_last() =~= rest);
                    assert(after.stack.last().spec_work() < top.spec_work());
                },
            }
        }
    }
}

/// A step and the sectors handed over leave a well-formed walk well formed, where
/// the sectors of a directory cluster hold no entry that the scan cannot take.
pub proof fn lemma_walk_wf(v: WalkView, data: Seq<u8>)
    requires
        v.wf(),
    ensures
        v.spec_step().wf(),
        v.spec_close().wf(),
        v.spec_awaits_cluster() ==> (spec_clean_from(data, 0) ==> v.spec_feed(data).wf()),
        !v.spec_awaits_cluster() ==> v.spec_feed(data).wf(),
        v.spec_can_step() ==> v.spec_cursor_admitted(),
{
    let top = v.stack.last();
    let rest = v.stack.drop_last();
    assert(v.stack == rest.push(top));
    let c = v.spec_close();
    assert forall|i: int| 0 <= i < c.stack.len() implies match (#[trigger] c.stack[i]).data {
        Some(d) => 0 <= c.stack[i].at && spec_clean_from(d, c.stack[i].at),
        None => true,
    } by {
        if rest.len() > 0 {
            assert(c.stack[i].data == v.stack[i].data && c.stack[i].at == v.stack[i].at);
        } else {
            assert(c.stack[i] == v.stack[i]);
        }
    }
    let s = v.spec_step();
    assert forall|i: int| 0 <= i < s.stack.len() implies match (#[trigger] s.stack[i]).data {
        Some(d) => 0 <= s.stack[i].at && spec_clean_from(d, s.stack[i].at),
        None => true,
    } by {
        if i < rest.len() {
            if s != c {
                assert(s.stack[i] == v.stack[i]);
            }
        }
    }
    let f = v.spec_feed(data);
    if !v.spec_awaits_cluster() || spec_clean_from(data, 0) {
        assert forall|i: int| 0 <= i < f.stack.len() implies match (#[trigger] f.stack[i]).data {
            Some(d) => 0 <= f.stack[i].at && spec_clean_from(d, f.stack[i].at),
            None => true,
        } by {
            if f != c && i < rest.len() {
                assert(f.stack[i] == v.stack[i]);
            }
        }
    }
}

/// The walk through the directories of a volume that builds its tree.
pub struct DirectoryWalk {
    pub volume: Volume,
    pub stack: Vec<Frame>,
    pub finished: bool,
    pub failed: Option<FsError>,
}

impl DirectoryWalk {
    /// The walk as plain values.
    pub open spec fn model(self) -> WalkView {
        WalkView {
            volume: self.volume,
            stack: self.stack@.map_values(|f: Frame| f.model()),
            finished: self.finished,
            failed: self.failed,
        }
    }

    /// The volume's layout can be computed, and the walk is well formed.
    pub open spec fn wf(self) -> bool {
        &&& self.volume.boot_sector.spec_usable()
        &&& self.model().wf()
    }

    /// The walk of `volume`, about to read the root directory.
    pub fn new(volume: Volume) -> (r: DirectoryWalk)
        requires
            volume.boot_sector.spec_usable(),
        ensures
            r.wf(),
            r.model() == (WalkView {
                volume,
                stack: seq![
                    FrameView {
                        nodes: seq![(0nat, File::spec_root())],
                        cluster: volume.boot_sector.extended_section.root_cluster,
                        data: None,
                        at: 0,
                        chain: false,
                    },
                ],
                finished: false,
                failed: None,
            }),
    {
        let mut stack: Vec<Frame> = Vec::new();
        stack.push(
            Frame {
                tree: tree_new(File::root()),
                cluster: volume.boot_sector.extended_section.root_cluster,
                data: None,
                at: 0,
                chain: false,
            },
        );
        let r = DirectoryWalk { volume, stack, finished: false, failed: None };
        assert(r.model().stack =~= seq![
            FrameView {
                nodes: seq![(0nat, File::spec_root())],
                cluster: volume.boot_sector.extended_section.root_cluster,
                data: None,
                at: 0,
                chain: false,
            },
        ]);
        r
    }

    /// What the driver does next.
    pub fn action(&self) -> (r: WalkAction)
        requires
            self.wf(),
        ensures
            r == self.model().spec_action(),
    {
        if let Some(e) = self.failed {
            return WalkAction::Failed(e);
        }
        if self.finished {
            return WalkAction::Done;
        }
        let top = &self.stack[self.stack.len() - 1];
        assert(self.model().stack.last() == top.model());
        if top.data.is_none() {
            if top.chain {
                WalkAction::ReadFat {
                    drive_num: self.volume.drive_num,
                    sector: self.volume.boot_sector.fat_sector_of(top.cluster),
                }
            } else if top.cluster < 2 {
                WalkAction::Failed(FsError::InvalidCluster)
            } else {
                WalkAction::Read {
                    drive_num: self.volume.drive_num,
                    first_sector: self.volume.boot_sector.first_sector_of(top.cluster),
                    sector_count: self.volume.boot_sector.sectors_per_cluster as u16,
                }
            }
        } else {
            WalkAction::Step
        }
    }

    /// Closes the directory that is being read.
    fn close(&mut self)
        requires
            old(self).wf(),
        ensures
            final(self).wf(),
            final(self).model() == old(self).model().spec_close(),
    {
        let ghost before = self.model();
        proof {
            lemma_walk_wf(before, Seq::empty());
        }
        if self.stack.len() == 1 {
            self.finished = true;
            return;
        }
        let top = self.stack.pop().unwrap();
        assert(self.stack@.map_values(|f: Frame| f.model()) =~= before.stack.drop_last());
        let mut parent = self.stack.pop().unwrap();
        assert(self.stack@.map_values(|f: Frame| f.model())
            =~= before.stack.drop_last().drop_last());
        tree_push_back(&mut parent.tree, top.tree);
        self.stack.push(parent);
        assert(self.model().stack =~= before.spec_close().stack);
    }

    /// Takes the sectors that the walk asked for: see `WalkView::spec_feed`.
    ///
    /// The sectors of a directory cluster must hold, before their first end
    /// marker, no long-file-name entry and no name that is not valid UTF-8;
    /// `cluster_admitted` tells.
    pub fn feed(&mut self, data: Vec<u8>)
        requires
            old(self).wf(),
            old(self).model().spec_awaits_cluster() ==> spec_clean_from(data@, 0),
        ensures
            final(self).wf(),
            final(self).model() == old(self).model().spec_feed(data@),
    {
        let ghost before = self.model();
        proof {
            lemma_walk_wf(before, data@);
        }
        if self.failed.is_some() || self.finished {
            return;
        }
        let n = self.stack.len();
        assert(before.stack.last() == self.stack@[n - 1].model());
        if self.stack[n - 1].data.is_some() {
            return;
        }
        if self.stack[n - 1].chain {
            let cluster = self.stack[n - 1].cluster;
            let offset = self.volume.boot_sector.fat_offset_of(cluster);
            if data.len() < 4 || offset > data.len() - 4 {
                self.failed = Some(FsError::ShortRead);
                assert(self.model().stack =~= before.stack);
                return;
            }
            let next = read_u32(data.as_slice(), offset) % CLUSTER_MODULUS;
            if next >= END_OF_CHAIN {
                self.close();
            } else if next < 2 {
                self.failed = Some(FsError::InvalidCluster);
                assert(self.model().stack =~= before.stack);
            } else {
                let top = self.stack.pop().unwrap();
                assert(self.stack@.map_values(|f: Frame| f.model()) =~= before.stack.drop_last());
                self.stack.push(
                    Frame { tree: top.tree, cluster: next, data: None, at: 0, chain: false },
                );
                assert(self.model().stack =~= before.spec_feed(data@).stack);
            }
            return;
        }
        if data.len() < ENTRY_SIZE {
            self.failed = Some(FsError::ShortRead);
            assert(self.model().stack =~= before.stack);
            return;
        }
        let top = self.stack.pop().unwrap();
        assert(self.stack@.map_values(|f: Frame| f.model()) =~= before.stack.drop_last());
        self.stack.push(
            Frame { tree: top.tree, cluster: top.cluster, data: Some(data), at: 0, chain: false },
        );
        assert(self.model().stack =~= before.spec_feed(data@).stack);
    }

    /// Deals with the next entry of the directory that is being read: see
    /// `WalkView::spec_step`.
    pub fn step(&mut self)
        requires
            old(self).wf(),
        ensures
            final(self).wf(),
            final(self).model() == old(self).model().spec_step(),
    {
        let ghost before = self.model();
        proof {
            lemma_walk_wf(before, Seq::empty());
        }
        if self.failed.is_some() || self.finished {
            return;
        }
        let n = self.stack.len();
        assert(before.stack.last() == self.stack@[n - 1].model());
        if self.stack[n - 1].data.is_none() {
            return;
        }
        let at = self.stack[n - 1].at;
        let kind = match &self.stack[n - 1].data {
            Some(data) => if data.len() < ENTRY_SIZE || at > data.len() - ENTRY_SIZE {
                None
            } else {
                Some(classify(data.as_slice(), at))
            },
            None => None,
        };
        match kind {
            Some(EntryKind::End) => {
                self.close();
                return;
            },
            Some(EntryKind::LongName) => {
                return;
            },
            Some(EntryKind::BadName) => {
                return;
            },
            _ => {},
        }
        let top = self.stack.pop().unwrap();
        let ghost rest = self.stack@;
        assert(rest.map_values(|f: Frame| f.model()) =~= before.stack.drop_last());
        let data = top.data.unwrap();
        match kind {
            None => {
                self.stack.push(
                    Frame { tree: top.tree, cluster: top.cluster, data: None, at: 0, chain: true },
                );
                assert(self.model().stack =~= before.spec_step().stack);
            },
            Some(EntryKind::Plain) => {
                let file = File::from_bytes(data.as_slice(), at);
                let mut tree = top.tree;
                tree_push_back(&mut tree, tree_new(file));
                assert(deepen(seq![(0nat, file)]) =~= seq![(1nat, file)]);
                assert(tree_nodes(tree) =~= before.stack.last().nodes.push((1nat, file)));
                self.stack.push(
                    Frame {
                        tree,
                        cluster: top.cluster,
                        data: Some(data),
                        at: at + 32,
                        chain: top.chain,
                    },
                );
                assert(self.model().stack =~= before.spec_step().stack);
            },
            Some(EntryKind::Directory) => {
                let file = File::from_bytes(data.as_slice(), at);
                self.stack.push(
                    Frame {
                        tree: top.tree,
                        cluster: top.cluster,
                        data: Some(data),
                        at: at + 32,
                        chain: top.chain,
                    },
                );
                let ghost lower = self.stack@.map_values(|f: Frame| f.model());
                assert(lower =~= before.stack.drop_last().push(
                    FrameView { at: before.stack.last().at + 32, ..before.stack.last() },
                ));
                self.stack.push(
                    Frame {
                        tree: tree_new(file),
                        cluster: file.get_data_addr(),
                        data: None,
                        at: 0,
                        chain: false,
                    },
                );
                assert(self.model().stack =~= lower.push(
                    FrameView {
                        nodes: seq![(0nat, file)],
                        cluster: file.spec_data_addr() as u32,
                        data: None,
                        at: 0,
                        chain: false,
                    },
                ));
            },
            _ => {
                self.stack.push(
                    Frame {
                        tree: top.tree,
                        cluster: top.cluster,
                        data: Some(data),
                        at: at + 32,
                        chain: top.chain,
                    },
                );
                assert(self.model().stack =~= before.spec_step().stack);
            },
        }
    }

    /// Reads one cluster of a directory, or follows its chain: takes the sectors
    /// that the walk asked for and deals with entry after entry, until the walk
    /// has ended or asks for sectors again: of the directory that an entry
    /// opened, or of the allocation table where a cluster was read to its end.
    ///
    /// The sectors of a directory cluster must hold, before their first end
    /// marker, no long-file-name entry and no name that is not valid UTF-8;
    /// `cluster_admitted` tells.
    pub fn parse_directory(&mut self, data: Vec<u8>)
        requires
            old(self).wf(),
            old(self).model().spec_awaits_cluster() ==> spec_clean_from(data@, 0),
        ensures
            final(self).wf(),
            final(self).model() == old(self).model().spec_feed(data@).spec_settle(),
            !final(self).model().spec_can_step(),
    {
        self.feed(data);
        let ghost fed = self.model();
        loop
            invariant
                self.wf(),
                fed.spec_settle() == self.model().spec_settle(),
            ensures
                !self.model().spec_can_step(),
            decreases self.model().spec_work(),
        {
            match self.action() {
                WalkAction::Step => {
                    proof {
                        lemma_walk_wf(self.model(), Seq::empty());
                        lemma_step_work(self.model());
                    }
                    self.step();
                },
                _ => {
                    break;
                },
            }
        }
    }

    /// The tree, once the walk is complete; `None` before that and after a failure.
    pub fn into_file_system(self) -> (r: Option<FileSystem>)
        requires
            self.wf(),
        ensures
            r is Some <==> self.finished && self.failed is None && self.stack@.len() == 1,
            r is Some ==> tree_nodes(r.unwrap().0) == self.model().stack[0].nodes,
    {
        let mut walk = self;
        if !walk.finished || walk.failed.is_some() || walk.stack.len() != 1 {
            return None;
        }
        let root = walk.stack.pop().unwrap();
        Some(FileSystem(root.tree))
    }
}

/// The entry that the scan records for a file is the one that the first 32 bytes
/// at its place in the cluster spell: read again as raw bytes, every field is the
/// same. This holds of the first entry of a cluster as of every other.
pub proof fn lemma_recorded_entry(v: WalkView)
    requires
        v.wf(),
        !v.spec_stopped(),
        v.stack.last().data is Some,
        v.stack.last().at + 32 <= v.stack.last().data.unwrap().len(),
    ensures
        ({
            let top = v.stack.last();
            let d = top.data.unwrap();
            let file = File::spec_parse(d, top.at);
            let after = v.spec_step();
            &&& spec_classify(d, top.at) == EntryKind::Plain ==> after.stack.len()
                == v.stack.len() && after.stack.last().nodes == top.nodes.push((1nat, file))
            &&& spec_classify(d, top.at) == EntryKind::Directory ==> after.stack.len()
                == v.stack.len() + 1 && after.stack.last().nodes == seq![(0nat, file)]
                && after.stack.last().cluster == file.spec_data_addr()
            &&& file.name@ == d.subrange(top.at, top.at + 11)
            &&& file.attributes.0 == d[top.at + 11]
            &&& file.file_size == le32(d, top.at + 28)
            &&& file.spec_data_addr() == le16(d, top.at + 26) + 0x1_0000 * le16(d, top.at + 20)
        }),
{
    let top = v.stack.last();
    let d = top.data.unwrap();
    assert(File::spec_parse(d, top.at).name@ =~= d.subrange(top.at, top.at + 11));
}

/// The chain of clusters is followed: where a directory cluster was read to its
/// end, the cluster that is read next is the one that the allocation table names
/// as its follower, whatever its number; at the end-of-chain mark the directory
/// closes and nothing more is read for it.
pub proof fn lemma_chain_followed(v: WalkView, sector: Seq<u8>)
    requires
        v.wf(),
        !v.spec_stopped(),
        v.stack.last().data is None,
        v.stack.last().chain,
        v.volume.boot_sector.spec_fat_offset_of(v.stack.last().cluster) + 4 <= sector.len(),
    ensures
        ({
            let next = v.volume.boot_sector.spec_next_cluster(v.stack.last().cluster, sector);
            let after = v.spec_feed(sector);
            &&& 2 <= next < END_OF_CHAIN ==> after.stack.len() == v.stack.len()
                && after.stack.last().cluster == next && after.spec_action() == (WalkAction::Read {
                drive_num: v.volume.drive_num,
                first_sector: v.volume.boot_sector.spec_first_sector_of(next as u32) as u64,
                sector_count: v.volume.boot_sector.sectors_per_cluster as u16,
            })
            &&& next >= END_OF_CHAIN ==> after == v.spec_close()
            &&& next < 2 ==> after.failed == Some(FsError::InvalidCluster)
        }),
{
}

/// Begins the walk of the volume on drive `drive_num`, whose sector 0 is given.
///
/// Fails exactly when the sector is shorter than a boot sector or gives sectors
/// or clusters no size.
pub fn init(drive_num: usize, sector_0: &[u8]) -> (r: Result<DirectoryWalk, FsError>)
    ensures
        match r {
            Ok(walk) => sector_0@.len() >= 90 && walk.wf() && walk.volume.drive_num == drive_num
                && walk.volume.boot_sector.spec_parsed_from(sector_0@) && walk.model() == (
            WalkView {
                volume: walk.volume,
                stack: seq![
                    FrameView {
                        nodes: seq![(0nat, File::spec_root())],
                        cluster: le32(sector_0@, 44) as u32,
                        data: None,
                        at: 0,
                        chain: false,
                    },
                ],
                finished: false,
                failed: None,
            }),
            Err(e) => e == FsError::BootSector && (sector_0@.len() < 90 || le16(sector_0@, 11) == 0
                || sector_0@[13] == 0),
        },
{
    if sector_0.len() < BOOT_SECTOR_SIZE {
        return Err(FsError::BootSector);
    }
    let boot_sector = FatBootSector::from_bytes(sector_0);
    if !boot_sector.usable() {
        return Err(FsError::BootSector);
    }
    Ok(DirectoryWalk::new(Volume { drive_num, boot_sector }))
}

/// The sectors that hold the data of a file.
#[derive(Debug, Clone, Copy, PartialEq, Eq, Structural)]
pub struct DataRequest {
    pub drive_num: usize,
    pub first_sector: u64,
    pub sector_count: u32,
}

impl DataRequest {
    /// The next read of the sectors, after `done` of them were read: from the
    /// sector behind those on, as many as are left, and no more than one transfer
    /// can move. `None` when all were read (or the sectors lie above the numbers
    /// that sectors have).
    pub fn next_read(&self, done: u32) -> (r: Option<(u64, u16)>)
        ensures
            r == if done < self.sector_count && self.first_sector + done <= u64::MAX {
                Some(
                    (
                        (self.first_sector + done) as u64,
                        if self.sector_count - done < crate::disk::MAX_SECTORS {
                            (self.sector_count - done) as u16
                        } else {
                            crate::disk::MAX_SECTORS
                        },
                    ),
                )
            } else {
                None
            },
    {
        if done >= self.sector_count {
            return None;
        }
        let first = match self.first_sector.checked_add(done as u64) {
            Some(first) => first,
            None => {
                return None;
            },
        };
        let left = self.sector_count - done;
        let count = if left < crate::disk::MAX_SECTORS as u32 {
            left as u16
        } else {
            crate::disk::MAX_SECTORS
        };
        Some((first, count))
    }
}

impl File {
    /// Sectors that the file's data takes: its size in bytes over the bytes in a
    /// sector, rounded up.
    pub open spec fn spec_sector_count(self, boot_sector: FatBootSector) -> int
        recommends
            boot_sector.bytes_per_sector > 0,
    {
        (self.file_size + boot_sector.bytes_per_sector - 1) / (boot_sector.bytes_per_sector as int)
    }

    /// The sectors to read for the file's data: from the first sector of its first
    /// cluster on, as many as its size takes.
    ///
    /// Fails, with `InvalidCluster`, exactly when the file's first cluster is below 2.
    pub fn data_request(&self, volume: &Volume) -> (r: Result<DataRequest, FsError>)
        requires
            volume.boot_sector.spec_usable(),
        ensures
            match r {
                Ok(q) => self.spec_data_addr() >= 2 && q.drive_num == volume.drive_num
                    && q.first_sector == volume.boot_sector.spec_first_sector_of(
                    self.spec_data_addr() as u32,
                ) && q.sector_count == self.spec_sector_count(volume.boot_sector),
                Err(e) => e == FsError::InvalidCluster && self.spec_data_addr() < 2,
            },
    {
        let cluster = self.get_data_addr();
        if cluster < 2 {
            return Err(FsError::InvalidCluster);
        }
        let per = volume.boot_sector.bytes_per_sector as u64;
        let size = self.file_size as u64;
        let count = (size + per - 1) / per;
        assert(count <= size) by (nonlinear_arith)
            requires
                per >= 1,
                count == (size + per - 1) / (per as int),
        ;
        Ok(
            DataRequest {
                drive_num: volume.drive_num,
                first_sector: volume.boot_sector.first_sector_of(cluster),
                sector_count: count as u32,
            },
        )
    }

    /// The file's data, from the sectors that were read for it: their first
    /// `file_size` bytes. `None` exactly when the sectors hold fewer.
    pub fn get_data(&self, sectors: Vec<u8>) -> (r: Option<Vec<u8>>)
        ensures
            r is Some <==> sectors@.len() >= self.file_size,
            r is Some ==> r.unwrap()@ == sectors@.subrange(0, self.file_size as int),
    {
        let mut data = sectors;
        if data.len() < self.file_size as usize {
            return None;
        }
        data.truncate(self.file_size as usize);
        Some(data)
    }
}

/// The bytes that stand for the name of an entry: a slash for the root, whose
/// name starts with a zero byte, else the eleven bytes of the name.
pub open spec fn spec_name_bytes(file: File) -> Seq<u8> {
    if file.name@[0] == 0 {
        seq![0x2Fu8]
    } else {
        file.name@
    }
}

impl File {
    /// Whether the entry has the name `name`: whether the bytes of its name are the
    /// UTF-8 bytes of `name`.
    pub fn is_named(&self, name: &str) -> (r: bool)
        ensures
            r == (spec_name_bytes(*self) == encode_utf8(name@)),
    {
        let bytes = name.as_bytes();
        if self.name[0] == 0 {
            let r = bytes.len() == 1 && bytes[0] == 0x2F;
            if r {
                assert(bytes@ =~= seq![0x2Fu8]);
            }
            return r;
        }
        if bytes.len() != 11 {
            return false;
        }
        let mut k: usize = 0;
        while k < 11
            invariant
                k <= 11,
                bytes@.len() == 11,
                bytes@ == encode_utf8(name@),
                self.name@[0] != 0,
                forall|j: int| 0 <= j < k ==> self.name@[j] == bytes@[j],
            decreases 11 - k,
        {
            if self.name[k] != bytes[k] {
                assert(self.name@[k as int] != bytes@[k as int]);
                return false;
            }
            k += 1;
        }
        assert(self.name@ =~= bytes@);
        true
    }
}

} // verus!
