//! ACPI: the root pointer in the BIOS window, table headers, and the root table
//! with the tables it points to.
use vstd::prelude::*;
use vstd::utf8::{encode_utf8, valid_utf8};
use crate::bytes::{byte_of, le32, read_array, read_u32, utf8_to_string};

verus! {

/// First physical address of the window that is searched for the root pointer.
pub const RSDP_REGION_START: u64 = 0x80000;

/// Last physical address of that window.
pub const RSDP_REGION_END: u64 = 0xFFFFF;

/// Bytes in the root pointer of revision 0.
pub const RSDP_SIZE: usize = 20;

/// Bytes in a table header.
pub const SDT_HEADER_SIZE: usize = 36;

/// The root system description pointer, revision 0.
#[derive(Debug, Clone, Copy, PartialEq, Eq)]
pub struct RSDPDescriptor {
    pub signature: [u8; 8],
    pub checksum: u8,
    pub oem_id: [u8; 6],
    pub revision: u8,
    pub rsdt_address: u32,
}

/// The root system description pointer of later revisions.
#[derive(Debug, Clone, Copy, PartialEq, Eq)]
pub struct RSDPExtended {
    pub base_descriptor: RSDPDescriptor,
    pub length: u32,
    pub xsdt_address: u64,
    pub extended_checksum: u8,
    pub reserved: [u8; 3],
}

/// The header that every system description table starts with.
#[derive(Debug, Clone, Copy, PartialEq, Eq)]
pub struct SDTHeader {
    pub signature: [u8; 4],
    pub length: u32,
    pub revision: u8,
    pub checksum: u8,
    pub oem_id: [u8; 6],
    pub oem_table_id: [u8; 8],
    pub oem_revision: u32,
    pub creator_id: u32,
    pub creator_revision: u32,
}

/// Why the ACPI tables could not be read.
#[derive(Debug, Clone, Copy, PartialEq, Eq, Structural)]
pub enum AcpiError {
    /// A table is shorter than its header says, or than a header.
    TableTooShort,
    /// A table lies above the address space.
    AddressOverflow,
}

/// The signature of the root pointer: `RSD PTR ` with the space at its end.
pub open spec fn spec_rsdp_signature() -> Seq<u8> {
    seq![0x52u8, 0x53u8, 0x44u8, 0x20u8, 0x50u8, 0x54u8, 0x52u8, 0x20u8]
}

/// The sum of the bytes.
pub open spec fn byte_sum(s: Seq<u8>) -> int
    decreases s.len(),
{
    if s.len() == 0 {
        0
    } else {
        byte_sum(s.drop_last()) + s.last()
    }
}

/// The sum of the bytes of a slice from `at` on, `n` of them.
fn sum_bytes(b: &[u8], at: usize, n: usize) -> (r: u32)
    requires
        at + n <= b@.len(),
        n <= 0x100_0000,
    ensures
        r == byte_sum(b@.subrange(at as int, at + n)),
{
    let _len = b.len();
    let mut sum: u32 = 0;
    let mut i: usize = 0;
    assert(b@.subrange(at as int, at as int) =~= Seq::<u8>::empty());
    while i < n
        invariant
            i <= n,
            n <= 0x100_0000,
            at + n <= b@.len(),
            b@.len() <= usize::MAX,
            sum == byte_sum(b@.subrange(at as int, at + i)),
            sum <= 255 * i,
        decreases n - i,
    {
        assert(b@.subrange(at as int, at + i + 1).drop_last() =~= b@.subrange(
            at as int,
            at + i,
        ));
        sum += b[at + i] as u32;
        i += 1;
    }
    sum
}

impl RSDPDescriptor {
    /// The descriptor that the 20 bytes at `at` spell.
    pub open spec fn spec_parse(b: Seq<u8>, at: int) -> RSDPDescriptor {
        RSDPDescriptor {
            signature: [
                b[at],
                b[at + 1],
                b[at + 2],
                b[at + 3],
                b[at + 4],
                b[at + 5],
                b[at + 6],
                b[at + 7],
            ],
            checksum: b[at + 8],
            oem_id: [b[at + 9], b[at + 10], b[at + 11], b[at + 12], b[at + 13], b[at + 14]],
            revision: b[at + 15],
            rsdt_address: le32(b, at + 16) as u32,
        }
    }

    /// The 20 bytes of the descriptor.
    pub open spec fn spec_bytes(self) -> Seq<u8> {
        self.signature@ + seq![self.checksum] + self.oem_id@ + seq![
            self.revision,
            byte_of(self.rsdt_address as int, 0),
            byte_of(self.rsdt_address as int, 1),
            byte_of(self.rsdt_address as int, 2),
            byte_of(self.rsdt_address as int, 3),
        ]
    }

    /// Whether the bytes of the descriptor add up to a multiple of 256.
    pub open spec fn spec_checksum_ok(self) -> bool {
        byte_sum(self.spec_bytes()) % 256 == 0
    }

    /// Reads the descriptor at `at`.
    pub fn from_bytes(b: &[u8], at: usize) -> (r: RSDPDescriptor)
        requires
            at + 20 <= b@.len(),
        ensures
            r == Self::spec_parse(b@, at as int),
    {
        let _len = b.len();
        let r = RSDPDescriptor {
            signature: read_array(b, at),
            checksum: b[at + 8],
            oem_id: read_array(b, at + 9),
            revision: b[at + 15],
            rsdt_address: read_u32(b, at + 16),
        };
        assert(r.signature =~= Self::spec_parse(b@, at as int).signature);
        assert(r.oem_id =~= Self::spec_parse(b@, at as int).oem_id);
        r
    }

    /// The 20 bytes of the descriptor.
    pub fn to_bytes(&self) -> (r: [u8; 20])
        ensures
            r@ == self.spec_bytes(),
    {
        let a = crate::bytes::u32_to_le(self.rsdt_address);
        let r = [
            self.signature[0],
            self.signature[1],
            self.signature[2],
            self.signature[3],
            self.signature[4],
            self.signature[5],
            self.signature[6],
            self.signature[7],
            self.checksum,
            self.oem_id[0],
            self.oem_id[1],
            self.oem_id[2],
            self.oem_id[3],
            self.oem_id[4],
            self.oem_id[5],
            self.revision,
            a[0],
            a[1],
            a[2],
            a[3],
        ];
        assert(r@ =~= self.spec_bytes());
        r
    }

    /// Whether the bytes of the descriptor add up to a multiple of 256.
    pub fn verify_checksum(&self) -> (r: bool)
        ensures
            r == self.spec_checksum_ok(),
    {
        let bytes = self.to_bytes();
        let sum = sum_bytes(vstd::array::array_as_slice(&bytes), 0, 20);
        assert(bytes@.subrange(0, 20) =~= bytes@);
        sum % 256 == 0
    }
}

/// Bytes in the window that is searched for the root pointer.
pub const RSDP_REGION_SIZE: usize = 0x80000;

/// Whether a root pointer with a valid checksum lies at offset `off` of the bytes.
pub open spec fn spec_rsdp_at(region: Seq<u8>, off: int) -> bool {
    &&& off + 20 <= region.len()
    &&& region.subrange(off, off + 8) == spec_rsdp_signature()
    &&& RSDPDescriptor::spec_parse(region, off).spec_checksum_ok()
}

/// The lowest offset from `from` on, in steps of 16 and inside the window, at
/// which a root pointer with a valid checksum lies.
pub open spec fn spec_first_rsdp(region: Seq<u8>, from: int) -> Option<int>
    decreases 0x80010 - from,
{
    if from < 0 || from >= 0x80000 {
        None
    } else if spec_rsdp_at(region, from) {
        Some(from)
    } else {
        spec_first_rsdp(region, from + 16)
    }
}

/// What the scan for the root pointer finds: the first descriptor with the
/// signature and a valid checksum, with its physical address.
pub open spec fn spec_scan_rsdp(region: Seq<u8>) -> Option<(u64, RSDPDescriptor)> {
    match spec_first_rsdp(region, 0) {
        None => None,
        Some(off) => Some(
            ((RSDP_REGION_START + off) as u64, RSDPDescriptor::spec_parse(region, off)),
        ),
    }
}

/// Whether the descriptor that the scan finds, if it finds one, is of revision 0,
/// the one revision that is read.
pub open spec fn spec_revision_supported(region: Seq<u8>) -> bool {
    match spec_scan_rsdp(region) {
        Some((_, rsdp)) => rsdp.revision == 0,
        None => true,
    }
}

/// Whether the eight bytes at `at` are the signature of the root pointer.
fn is_rsdp_signature(b: &[u8], at: usize) -> (r: bool)
    requires
        at + 8 <= b@.len(),
    ensures
        r == (b@.subrange(at as int, at + 8) == spec_rsdp_signature()),
{
    let _len = b.len();
    let sig: [u8; 8] = [0x52, 0x53, 0x44, 0x20, 0x50, 0x54, 0x52, 0x20];
    assert(sig@ =~= spec_rsdp_signature());
    let mut k: usize = 0;
    while k < 8
        invariant
            k <= 8,
            at + 8 <= b@.len(),
            b@.len() <= usize::MAX,
            sig@ == spec_rsdp_signature(),
            forall|j: int| 0 <= j < k ==> b@[at + j] == sig@[j],
        decreases 8 - k,
    {
        if b[at + k] != sig[k] {
            assert(b@.subrange(at as int, at + 8)[k as int] != spec_rsdp_signature()[k as int]);
            return false;
        }
        k += 1;
    }
    assert(b@.subrange(at as int, at + 8) =~= spec_rsdp_signature());
    true
}

/// Scans the BIOS window for the root pointer, whatever its revision.
///
/// `region` holds physical memory from address 0x80000 on. The window is scanned
/// in steps of 16 bytes for the signature `RSD PTR `; the first place where it is
/// followed by a descriptor whose 20 bytes add up to a multiple of 256 is the one.
/// `None` exactly when there is no such place.
pub fn scan_rsdp(region: &[u8]) -> (r: Option<(u64, RSDPDescriptor)>)
    ensures
        r == spec_scan_rsdp(region@),
{
    let len = region.len();
    let mut off: usize = 0;
    while off < RSDP_REGION_SIZE
        invariant
            off % 16 == 0,
            off <= RSDP_REGION_SIZE,
            len == region@.len(),
            spec_first_rsdp(region@, 0) == spec_first_rsdp(region@, off as int),
        decreases RSDP_REGION_SIZE - off,
    {
        if len >= RSDP_SIZE && off <= len - RSDP_SIZE && is_rsdp_signature(region, off) {
            let d = RSDPDescriptor::from_bytes(region, off);
            if d.verify_checksum() {
                return Some((RSDP_REGION_START + off as u64, d));
            }
        }
        off += 16;
    }
    None
}

/// Finds the root pointer in the BIOS window: what `scan_rsdp` finds. The
/// descriptor found must be of revision 0; `scan_rsdp` tells.
pub fn find_rsdp(region: &[u8]) -> (r: Option<(u64, RSDPDescriptor)>)
    requires
        spec_revision_supported(region@),
    ensures
        r == spec_scan_rsdp(region@),
        r is Some ==> r.unwrap().1.revision == 0,
{
    scan_rsdp(region)
}

/// Whether the tables can be read from the window: it holds a root pointer of
/// revision 0, and the root table lies inside the address space, with physical
/// memory mapped from `phys_offset` on.
pub open spec fn spec_init_admitted(region: Seq<u8>, phys_offset: u64) -> bool {
    match spec_scan_rsdp(region) {
        Some((_, rsdp)) => rsdp.revision == 0 && rsdp.rsdt_address + phys_offset <= u64::MAX,
        None => false,
    }
}

/// Finds the root pointer in the BIOS window, of which `region` holds the bytes,
/// and tells where the root table is to be read. The window must hold a root
/// pointer of revision 0 whose root table lies inside the address space;
/// `scan_rsdp` and `get_rsdt` tell.
pub fn init(region: &[u8], phys_offset: u64) -> (r: (RSDPDescriptor, u64))
    requires
        spec_init_admitted(region@, phys_offset),
    ensures
        r.0 == spec_scan_rsdp(region@).unwrap().1,
        r.1 == r.0.rsdt_address + phys_offset,
{
    let (_, rsdp) = find_rsdp(region).unwrap();
    (rsdp, rsdp.rsdt_address as u64 + phys_offset)
}

/// The address at which the root table lies, with physical memory mapped from
/// `physical_offset` on; `None` where that address is above the address space.
pub fn get_rsdt(rsdp: &RSDPDescriptor, physical_offset: u64) -> (r: Option<u64>)
    ensures
        r == if rsdp.rsdt_address + physical_offset <= u64::MAX {
            Some((rsdp.rsdt_address + physical_offset) as u64)
        } else {
            None
        },
{
    (rsdp.rsdt_address as u64).checked_add(physical_offset)
}

impl SDTHeader {
    /// The header that the 36 bytes at `at` spell.
    pub open spec fn spec_parse(b: Seq<u8>, at: int) -> SDTHeader {
        SDTHeader {
            signature: [b[at], b[at + 1], b[at + 2], b[at + 3]],
            length: le32(b, at + 4) as u32,
            revision: b[at + 8],
            checksum: b[at + 9],
            oem_id: [b[at + 10], b[at + 11], b[at + 12], b[at + 13], b[at + 14], b[at + 15]],
            oem_table_id: [
                b[at + 16],
                b[at + 17],
                b[at + 18],
                b[at + 19],
                b[at + 20],
                b[at + 21],
                b[at + 22],
                b[at + 23],
            ],
            oem_revision: le32(b, at + 24) as u32,
            creator_id: le32(b, at + 28) as u32,
            creator_revision: le32(b, at + 32) as u32,
        }
    }

    /// Reads the header at `at`.
    pub fn from_bytes(b: &[u8], at: usize) -> (r: SDTHeader)
        requires
            at + 36 <= b@.len(),
        ensures
            r == Self::spec_parse(b@, at as int),
    {
        let _len = b.len();
        let r = SDTHeader {
            signature: read_array(b, at),
            length: read_u32(b, at + 4),
            revision: b[at + 8],
            checksum: b[at + 9],
            oem_id: read_array(b, at + 10),
            oem_table_id: read_array(b, at + 16),
            oem_revision: read_u32(b, at + 24),
            creator_id: read_u32(b, at + 28),
            creator_revision: read_u32(b, at + 32),
        };
        assert(r.signature =~= Self::spec_parse(b@, at as int).signature);
        assert(r.oem_id =~= Self::spec_parse(b@, at as int).oem_id);
        assert(r.oem_table_id =~= Self::spec_parse(b@, at as int).oem_table_id);
        r
    }

    /// Whether the four bytes of the signature are valid UTF-8.
    pub fn signature_valid(&self) -> (r: bool)
        ensures
            r == valid_utf8(self.signature@),
    {
        utf8_to_string(vstd::array::array_as_slice(&self.signature)).is_some()
    }

    /// The signature as a string. Its four bytes must be valid UTF-8;
    /// `signature_valid` tells.
    pub fn get_signature_str(&self) -> (r: String)
        requires
            valid_utf8(self.signature@),
        ensures
            encode_utf8(r@) == self.signature@,
    {
        utf8_to_string(vstd::array::array_as_slice(&self.signature)).unwrap()
    }

    /// Whether the signature is the four given bytes.
    pub fn has_signature(&self, signature: &[u8; 4]) -> (r: bool)
        ensures
            r == (self.signature@ == signature@),
    {
        let r = self.signature[0] == signature[0] && self.signature[1] == signature[1]
            && self.signature[2] == signature[2] && self.signature[3] == signature[3];
        if r {
            assert(self.signature@ =~= signature@);
        }
        r
    }

    /// Length of the table in bytes, header included.
    pub fn get_length(&self) -> (r: u32)
        ensures
            r == self.length,
    {
        self.length
    }
}

/// The root system description table: its header, the addresses of the tables it
/// points to, and the headers of those tables as far as they were read.
pub struct RSDT {
    pub header: SDTHeader,
    /// Where each table lies, with physical memory mapped from the offset on.
    pub addresses: Vec<u64>,
    pub tables: Vec<SDTHeader>,
}

/// The `k`-th physical address that a root table holds behind its header.
pub open spec fn spec_pointer(table: Seq<u8>, k: int) -> int {
    le32(table, 36 + 4 * k)
}

/// Number of tables that a root table of `length` bytes points to.
pub open spec fn spec_table_count(length: u32) -> int {
    (length - 36) / 4
}

impl RSDT {
    /// No more headers were read than there are tables.
    pub open spec fn wf(self) -> bool {
        self.tables@.len() <= self.addresses@.len()
    }

    /// Reads the root table: its header and, behind it, the 32-bit physical
    /// addresses of the tables it points to. The headers of those tables are still
    /// to be read, from the addresses that `next_table` gives.
    ///
    /// Fails with `TableTooShort` exactly when the header gives a length below that
    /// of a header or the bytes are fewer than that length, and else with
    /// `AddressOverflow` exactly when one of the addresses, moved by the offset,
    /// leaves the address space.
    pub fn from_header(table: &[u8], physical_offset: u64) -> (r: Result<RSDT, AcpiError>)
        ensures
            match r {
                Ok(t) => table@.len() >= 36 && t.header == SDTHeader::spec_parse(table@, 0)
                    && t.header.length >= 36 && t.header.length <= table@.len() && t.wf()
                    && t.tables@.len() == 0 && t.addresses@.len() == spec_table_count(
                    t.header.length,
                ) && forall|k: int|
                    0 <= k < t.addresses@.len() ==> #[trigger] t.addresses@[k] == spec_pointer(
                        table@,
                        k,
                    ) + physical_offset,
                Err(AcpiError::TableTooShort) => table@.len() < 36 || le32(table@, 4) < 36 || le32(
                    table@,
                    4,
                ) > table@.len(),
                Err(AcpiError::AddressOverflow) => table@.len() >= 36 && 36 <= le32(table@, 4)
                    <= table@.len() && exists|k: int|
                    0 <= k < spec_table_count(le32(table@, 4) as u32) && #[trigger] spec_pointer(
                        table@,
                        k,
                    ) + physical_offset > u64::MAX,
                Err(_) => false,
            },
    {
        if table.len() < SDT_HEADER_SIZE {
            return Err(AcpiError::TableTooShort);
        }
        let header = SDTHeader::from_bytes(table, 0);
        if header.length < 36 || header.length as usize > table.len() {
            return Err(AcpiError::TableTooShort);
        }
        let count = ((header.length - 36) / 4) as usize;
        let mut addresses: Vec<u64> = Vec::new();
        let mut k: usize = 0;
        while k < count
            invariant
                k <= count,
                count == spec_table_count(header.length),
                header.length == le32(table@, 4),
                table@.len() >= 36,
                header.length >= 36,
                header.length <= table@.len(),
                addresses@.len() == k,
                forall|j: int|
                    0 <= j < k ==> #[trigger] addresses@[j] == spec_pointer(table@, j)
                        + physical_offset,
            decreases count - k,
        {
            let pointer = read_u32(table, 36 + 4 * k) as u64;
            match pointer.checked_add(physical_offset) {
                Some(a) => {
                    addresses.push(a);
                },
                None => {
                    assert(spec_pointer(table@, k as int) + physical_offset > u64::MAX);
                    return Err(AcpiError::AddressOverflow);
                },
            }
            k += 1;
        }
        Ok(RSDT { header, addresses, tables: Vec::new() })
    }

    /// The address of the next table whose header is still to be read; `None`
    /// when all were read.
    pub fn next_table(&self) -> (r: Option<u64>)
        requires
            self.wf(),
        ensures
            r == if self.tables@.len() < self.addresses@.len() {
                Some(self.addresses@[self.tables@.len() as int])
            } else {
                None
            },
    {
        if self.tables.len() < self.addresses.len() {
            Some(self.addresses[self.tables.len()])
        } else {
            None
        }
    }

    /// Takes the header of the next table, read from the address that `next_table`
    /// gave. Returns whether it was taken: it is not when all tables were read
    /// already or the bytes are fewer than a header.
    pub fn add_table(&mut self, header: &[u8]) -> (r: bool)
        requires
            old(self).wf(),
        ensures
            final(self).wf(),
            final(self).header == old(self).header,
            final(self).addresses == old(self).addresses,
            r == (old(self).tables@.len() < old(self).addresses@.len() && header@.len() >= 36),
            r ==> final(self).tables@ == old(self).tables@.push(SDTHeader::spec_parse(header@, 0)),
            !r ==> final(self).tables == old(self).tables,
    {
        if self.tables.len() < self.addresses.len() && header.len() >= SDT_HEADER_SIZE {
            self.tables.push(SDTHeader::from_bytes(header, 0));
            true
        } else {
            false
        }
    }

    /// The headers of the tables that the root table points to, as far as they
    /// were read.
    pub fn get_tables(&self) -> (r: &Vec<SDTHeader>)
        ensures
            r == &self.tables,
    {
        &self.tables
    }
}

} // verus!
