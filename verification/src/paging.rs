//! Page tables: 512 entries of 64 bits each, an address and flags in every one.
use vstd::prelude::*;
use x86_64::structures::paging::{Page, PageTable, PageTableFlags, Size4KiB};
use x86_64::{PhysAddr, VirtAddr};

verus! {

/// Entries in a page table.
pub const ENTRY_COUNT: usize = 512;

/// Flag of an entry that is in use.
pub const PRESENT: u64 = 1;

/// Flag of an entry through which memory can be written.
pub const WRITABLE: u64 = 2;

/// Flag of an entry through which ring 3 can reach memory.
pub const USER_ACCESSIBLE: u64 = 4;

/// The bits of an entry that hold flags: all but the address bits 12 to 51.
pub const FLAG_BITS: u64 = 0xFFF0_0000_0000_0FFF;

/// `x86_64::structures::paging::PageTable`: a page table as it lies in memory.
#[verifier::external_type_specification]
#[verifier::external_body]
pub struct ExPageTable(PageTable);

/// The 512 entries of a page table, each as its 64 bits.
pub uninterp spec fn table_entries(t: PageTable) -> Seq<u64>;

/// The entries of an empty table.
pub open spec fn empty_entries() -> Seq<u64> {
    Seq::new(512, |i: int| 0u64)
}

/// The bits of an entry with the given address and flags.
pub open spec fn entry_bits(addr: u64, flags: u64) -> u64 {
    addr | (flags & FLAG_BITS)
}

/// `PageTable::new`: a table whose entries are all zero.
#[verifier::external_body]
pub(crate) fn table_new() -> (t: PageTable)
    ensures
        table_entries(t) == empty_entries(),
{
    PageTable::new()
}

/// `PageTable::zero`: every entry becomes zero.
#[verifier::external_body]
pub(crate) fn table_zero(t: &mut PageTable)
    ensures
        table_entries(*final(t)) == empty_entries(),
{
    t.zero()
}

/// Indexing and `PageTableEntry::clone`: entry `i` of the first table becomes a
/// copy of entry `j` of the second; no other entry changes.
#[verifier::external_body]
pub(crate) fn table_copy_entry(t: &mut PageTable, i: usize, from: &PageTable, j: usize)
    requires
        i < 512,
        j < 512,
    ensures
        table_entries(*final(t)) == table_entries(*old(t)).update(
            i as int,
            table_entries(*from)[j as int],
        ),
{
    t[i] = from[j].clone();
}

/// `PageTableEntry::set_addr` on entry `i`, with `PhysAddr::new` of the address
/// and `PageTableFlags::from_bits_truncate` of the flags: the entry becomes the
/// address with the flag bits set in it; no other entry changes. `PhysAddr::new`
/// panics on an address with a bit from 52 up set, `set_addr` on one that is not
/// a multiple of 4096.
#[verifier::external_body]
pub(crate) fn table_set_addr(t: &mut PageTable, i: usize, addr: u64, flags: u64)
    requires
        i < 512,
        addr < 0x10_0000_0000_0000,
        addr % 4096 == 0,
    ensures
        table_entries(*final(t)) == table_entries(*old(t)).update(
            i as int,
            entry_bits(addr, flags),
        ),
{
    t[i].set_addr(PhysAddr::new(addr), PageTableFlags::from_bits_truncate(flags));
}

/// Whether an address is canonical as it stands: its bits from 47 up are all
/// clear or all set.
pub open spec fn spec_canonical(addr: u64) -> bool {
    addr < 0x8000_0000_0000 || addr >= 0xFFFF_8000_0000_0000
}

/// The start of the page that holds `addr`.
pub open spec fn page_of(addr: int) -> int {
    addr - addr % 4096
}

/// `Page::containing_address` of `VirtAddr::new(addr)`, as its start address: the
/// address rounded down to a multiple of 4096. `VirtAddr::new` panics on an
/// address whose bits from 48 up hold anything but copies of bit 47 or zeros, and
/// rewrites one with bit 47 set and zeros above it.
#[verifier::external_body]
pub(crate) fn page_containing(addr: u64) -> (r: u64)
    requires
        spec_canonical(addr),
    ensures
        r == page_of(addr as int),
{
    Page::<Size4KiB>::containing_address(VirtAddr::new(addr)).start_address().as_u64()
}

/// The start of the page that holds the virtual address `addr`; `None` exactly
/// when the address is not canonical.
pub fn containing_page(addr: u64) -> (r: Option<u64>)
    ensures
        r == if spec_canonical(addr) {
            Some(page_of(addr as int) as u64)
        } else {
            None
        },
{
    if addr < 0x8000_0000_0000 || addr >= 0xFFFF_8000_0000_0000 {
        Some(page_containing(addr))
    } else {
        None
    }
}

/// One page of an address space: the page at virtual address `page` lies in the
/// frame at physical address `frame`.
#[derive(Debug, Clone, Copy, PartialEq, Eq, Structural)]
pub struct Mapping {
    pub page: u64,
    pub frame: u64,
    pub flags: u64,
}

} // verus!
