//! Segment selectors of the descriptor table.
use vstd::prelude::*;
use x86_64::structures::gdt::SegmentSelector;
use x86_64::PrivilegeLevel;

verus! {

/// Index of the interrupt stack that the double-fault handler runs on.
pub const DOUBLE_FAULT_IST_INDEX: u16 = 0;

/// Requested privilege level of code that runs in ring 3.
pub const RING_3: u16 = 3;

/// The selectors of the descriptor table, in the order of its entries: kernel
/// code, kernel data, task state, user data, user code.
#[derive(Debug, Clone, Copy, PartialEq, Eq, Structural)]
pub struct Selectors {
    pub code_selector: u16,
    pub data_selector: u16,
    pub tss_selector: u16,
    pub user_data_selector: u16,
    pub user_code_selector: u16,
}

/// The bits of the selector for entry `index` of the table at the requested
/// privilege level `ring`.
pub open spec fn spec_selector(index: u16, ring: u16) -> u16 {
    (index << 3) | ring
}

/// `SegmentSelector::new` with `PrivilegeLevel::from_u16` of the ring, as its
/// bits: the index moved up by three bits, with the ring in the bits below.
/// `from_u16` panics on a ring above 3.
#[verifier::external_body]
fn selector(index: u16, ring: u16) -> (r: u16)
    requires
        ring <= 3,
    ensures
        r == spec_selector(index, ring),
{
    SegmentSelector::new(index, PrivilegeLevel::from_u16(ring)).0
}

impl Selectors {
    /// The selectors of a table that holds, behind its empty first entry, the
    /// kernel's code and data segments, the task state segment in two entries,
    /// and the user's data and code segments.
    pub open spec fn spec_layout() -> Selectors {
        Selectors {
            code_selector: 0x08,
            data_selector: 0x10,
            tss_selector: 0x18,
            user_data_selector: 0x2B,
            user_code_selector: 0x33,
        }
    }

    /// The selectors of the table, from the places of its entries: the kernel's
    /// at ring 0, the user's at ring 3.
    pub fn layout() -> (r: Selectors)
        ensures
            r == Self::spec_layout(),
    {
        assert(spec_selector(1, 0) == 0x08 && spec_selector(2, 0) == 0x10 && spec_selector(3, 0)
            == 0x18 && spec_selector(5, 3) == 0x2B && spec_selector(6, 3) == 0x33) by (bit_vector);
        Selectors {
            code_selector: selector(1, 0),
            data_selector: selector(2, 0),
            tss_selector: selector(3, 0),
            user_data_selector: selector(5, RING_3),
            user_code_selector: selector(6, RING_3),
        }
    }
}

/// The code and data selectors for user mode: those of the table with ring 3 as
/// their requested privilege level.
pub fn set_usermode_segments(selectors: &Selectors) -> (r: (u16, u16))
    ensures
        r.0 == selectors.user_code_selector | RING_3,
        r.1 == selectors.user_data_selector | RING_3,
{
    (selectors.user_code_selector | RING_3, selectors.user_data_selector | RING_3)
}

} // verus!
