//! Physical memory: the loader's memory map and the allocators that hand out its
//! usable frames.
use vstd::prelude::*;
use x86_64::structures::paging::{PhysFrame, Size4KiB};
use x86_64::PhysAddr;

verus! {

/// Bytes in a frame.
pub const FRAME_SIZE: u64 = 4096;

/// One more than the highest physical address: physical addresses have 52 bits.
pub const PHYS_ADDR_LIMIT: u64 = 0x10_0000_0000_0000;

/// What a region of physical memory is used for.
#[derive(Debug, Clone, Copy, PartialEq, Eq, Structural)]
pub enum MemoryRegionType {
    Usable,
    InUse,
    Reserved,
    AcpiReclaimable,
    AcpiNvs,
    BadMemory,
    Kernel,
    KernelStack,
    PageTable,
    Bootloader,
    FrameZero,
    Empty,
    BootInfo,
    Package,
}

/// A region of the loader's memory map: the addresses from `start_addr` up to,
/// but not including, `end_addr`.
#[derive(Debug, Clone, Copy, PartialEq, Eq, Structural)]
pub struct MemoryRegion {
    pub start_addr: u64,
    pub end_addr: u64,
    pub region_type: MemoryRegionType,
}

/// The start of the frame that holds `addr`.
pub open spec fn frame_of(addr: int) -> int {
    addr - addr % 4096
}

impl MemoryRegion {
    /// Number of frames that the region offers: none unless it is usable, else one
    /// for every step of 4096 from its start that stays below its end.
    pub open spec fn spec_frame_count(self) -> int {
        if self.region_type == MemoryRegionType::Usable && self.start_addr < self.end_addr {
            (self.end_addr - self.start_addr + 4095) / 4096
        } else {
            0
        }
    }

    /// The region's `n`-th frame.
    pub open spec fn spec_frame(self, n: int) -> int {
        frame_of(self.start_addr + 4096 * n)
    }

    /// A usable region ends within the physical address space.
    pub open spec fn spec_valid(self) -> bool {
        self.region_type == MemoryRegionType::Usable ==> self.end_addr <= PHYS_ADDR_LIMIT
    }

    /// Number of frames that the region offers.
    pub fn frame_count(&self) -> (r: u64)
        ensures
            r == self.spec_frame_count(),
    {
        match self.region_type {
            MemoryRegionType::Usable => if self.start_addr < self.end_addr {
                (self.end_addr - self.start_addr - 1) / 4096 + 1
            } else {
                0
            },
            _ => 0,
        }
    }
}

/// The `n`-th usable frame of a memory map, counted through its regions in their
/// order; `None` where the map has no more than `n`.
pub open spec fn usable_frame(map: Seq<MemoryRegion>, n: int) -> Option<u64>
    decreases map.len(),
{
    if map.len() == 0 || n < 0 {
        None
    } else if n < map[0].spec_frame_count() {
        Some(map[0].spec_frame(n) as u64)
    } else {
        usable_frame(map.drop_first(), n - map[0].spec_frame_count())
    }
}

/// Whether every usable region of the map ends within the physical address space.
pub open spec fn map_valid(map: Seq<MemoryRegion>) -> bool {
    forall|i: int| 0 <= i < map.len() ==> (#[trigger] map[i]).spec_valid()
}

/// Whether every usable region of the map ends within the physical address space.
pub fn memory_map_valid(map: &Vec<MemoryRegion>) -> (r: bool)
    ensures
        r == map_valid(map@),
{
    let mut i: usize = 0;
    while i < map.len()
        invariant
            i <= map@.len(),
            forall|j: int| 0 <= j < i ==> (#[trigger] map@[j]).spec_valid(),
        decreases map@.len() - i,
    {
        match map[i].region_type {
            MemoryRegionType::Usable => {
                if map[i].end_addr > PHYS_ADDR_LIMIT {
                    return false;
                }
            },
            _ => {},
        }
        i += 1;
    }
    true
}

/// `PhysFrame::containing_address` of `PhysAddr::new(addr)`, as its start address:
/// the address rounded down to a multiple of 4096. `PhysAddr::new` panics on an
/// address with a bit from 52 up set.
#[verifier::external_body]
pub(crate) fn frame_containing(addr: u64) -> (r: u64)
    requires
        addr < PHYS_ADDR_LIMIT,
    ensures
        r == frame_of(addr as int),
{
    PhysFrame::<Size4KiB>::containing_address(PhysAddr::new(addr)).start_address().as_u64()
}

/// The `n`-th usable frame of the map.
fn nth_usable_frame(map: &Vec<MemoryRegion>, n: usize) -> (r: Option<u64>)
    requires
        map_valid(map@),
    ensures
        r == usable_frame(map@, n as int),
{
    let mut i: usize = 0;
    let mut left: u64 = n as u64;
    assert(map@.subrange(0, map@.len() as int) =~= map@);
    while i < map.len()
        invariant
            i <= map@.len(),
            map_valid(map@),
            usable_frame(map@, n as int) == usable_frame(
                map@.subrange(i as int, map@.len() as int),
                left as int,
            ),
        decreases map@.len() - i,
    {
        let ghost rest = map@.subrange(i as int, map@.len() as int);
        assert(rest[0] == map@[i as int]);
        assert(rest.drop_first() =~= map@.subrange(i + 1, map@.len() as int));
        let count = map[i].frame_count();
        if left < count {
            assert(map@[i as int].spec_valid());
            return Some(frame_containing(map[i].start_addr + 4096 * left));
        }
        left -= count;
        i += 1;
    }
    None
}

/// Hands out the usable frames of the loader's memory map, each once, in the
/// order of the map.
pub struct BootInfoFrameAllocator {
    pub memory_map: Vec<MemoryRegion>,
    /// Number of the next frame to hand out.
    pub next: usize,
}

impl BootInfoFrameAllocator {
    /// The memory map is valid.
    pub open spec fn wf(self) -> bool {
        map_valid(self.memory_map@)
    }

    /// Number of frames that the allocator can still hand out.
    pub open spec fn spec_available(self) -> int {
        let total = usable_frame_total(self.memory_map@);
        let limit = if total < usize::MAX {
            total
        } else {
            usize::MAX as int
        };
        if self.next < limit {
            limit - self.next
        } else {
            0
        }
    }

    /// The frame that the allocator hands out `k` calls from now.
    pub open spec fn spec_frame(self, k: int) -> u64 {
        usable_frame(self.memory_map@, self.next + k).unwrap()
    }

    /// An allocator over the map that passes over the first `used` usable frames.
    pub fn init(memory_map: Vec<MemoryRegion>, used: usize) -> (r: Self)
        requires
            map_valid(memory_map@),
        ensures
            r.wf(),
            r.memory_map == memory_map,
            r.next == used,
    {
        BootInfoFrameAllocator { memory_map, next: used }
    }

    /// The next usable frame, by its start address; `None`, and no change, when
    /// the map has no more (or the counter of frames handed out is at its end).
    pub fn allocate_frame(&mut self) -> (r: Option<u64>)
        requires
            old(self).wf(),
        ensures
            final(self).wf(),
            final(self).memory_map == old(self).memory_map,
            r == if old(self).next < usize::MAX {
                usable_frame(old(self).memory_map@, old(self).next as int)
            } else {
                None
            },
            r is Some ==> final(self).next == old(self).next + 1,
            r is None ==> final(self).next == old(self).next,
            r is Some ==> r.unwrap() % 4096 == 0 && r.unwrap() < PHYS_ADDR_LIMIT,
            r is Some <==> old(self).spec_available() > 0,
    {
        proof {
            lemma_usable_frame_some(self.memory_map@, self.next as int);
        }
        if self.next == usize::MAX {
            return None;
        }
        let r = nth_usable_frame(&self.memory_map, self.next);
        if r.is_some() {
            proof {
                lemma_usable_frame_aligned(self.memory_map@, self.next as int);
            }
            self.next += 1;
        }
        r
    }

    /// The next `count` usable frames, in the order in which single calls would
    /// hand them out; `None` exactly when the allocator has fewer left, and then
    /// it has none left afterwards.
    pub fn allocate_frames(&mut self, count: usize) -> (r: Option<Vec<u64>>)
        requires
            old(self).wf(),
        ensures
            final(self).wf(),
            final(self).memory_map == old(self).memory_map,
            r is Some <==> old(self).spec_available() >= count,
            match r {
                Some(v) => v@.len() == count && final(self).next == old(self).next + count
                    && forall|k: int|
                    0 <= k < count ==> #[trigger] v@[k] == old(self).spec_frame(k) && v@[k] % 4096
                        == 0 && v@[k] < PHYS_ADDR_LIMIT,
                None => final(self).next == old(self).next + old(self).spec_available(),
            },
    {
        let mut v: Vec<u64> = Vec::new();
        let mut k: usize = 0;
        while k < count
            invariant
                k <= count,
                self.wf(),
                self.memory_map == old(self).memory_map,
                self.next == old(self).next + k,
                self.spec_available() + k == old(self).spec_available(),
                v@.len() == k,
                forall|j: int|
                    0 <= j < k ==> #[trigger] v@[j] == old(self).spec_frame(j) && v@[j] % 4096 == 0
                        && v@[j] < PHYS_ADDR_LIMIT,
            decreases count - k,
        {
            match self.allocate_frame() {
                Some(frame) => {
                    v.push(frame);
                },
                None => {
                    return None;
                },
            }
            k += 1;
        }
        Some(v)
    }
}

/// Hands out the usable frames of the loader's memory map from the first on, and
/// tells how many it has handed out.
pub struct LinearFrameAllocator {
    pub memory_map: Vec<MemoryRegion>,
    /// Number of the next frame to hand out.
    pub next: usize,
}

impl LinearFrameAllocator {
    /// The memory map is valid.
    pub open spec fn wf(self) -> bool {
        map_valid(self.memory_map@)
    }

    /// An allocator over the map that starts with its first usable frame.
    pub fn init(memory_map: Vec<MemoryRegion>) -> (r: Self)
        requires
            map_valid(memory_map@),
        ensures
            r.wf(),
            r.memory_map == memory_map,
            r.next == 0,
    {
        LinearFrameAllocator { memory_map, next: 0 }
    }

    /// Number of frames handed out.
    pub fn get_used(&self) -> (r: usize)
        ensures
            r == self.next,
    {
        self.next
    }

    /// The next usable frame, by its start address; `None`, and no change, when
    /// the map has no more (or the counter of frames handed out is at its end).
    pub fn allocate_frame(&mut self) -> (r: Option<u64>)
        requires
            old(self).wf(),
        ensures
            final(self).wf(),
            final(self).memory_map == old(self).memory_map,
            r == if old(self).next < usize::MAX {
                usable_frame(old(self).memory_map@, old(self).next as int)
            } else {
                None
            },
            r is Some ==> final(self).next == old(self).next + 1,
            r is None ==> final(self).next == old(self).next,
            r is Some ==> r.unwrap() % 4096 == 0 && r.unwrap() < PHYS_ADDR_LIMIT,
    {
        if self.next == usize::MAX {
            return None;
        }
        let r = nth_usable_frame(&self.memory_map, self.next);
        if r.is_some() {
            proof {
                lemma_usable_frame_aligned(self.memory_map@, self.next as int);
            }
            self.next += 1;
        }
        r
    }
}

/// Every usable frame of a valid map starts at a multiple of 4096 within the
/// physical address space.
pub proof fn lemma_usable_frame_aligned(map: Seq<MemoryRegion>, n: int)
    requires
        map_valid(map),
        usable_frame(map, n) is Some,
    ensures
        usable_frame(map, n).unwrap() % 4096 == 0,
        usable_frame(map, n).unwrap() < PHYS_ADDR_LIMIT,
    decreases map.len(),
{
    if map.len() > 0 && n >= 0 {
        assert(map[0].spec_valid());
        if n >= map[0].spec_frame_count() {
            assert forall|i: int| 0 <= i < map.drop_first().len() implies (
            #[trigger] map.drop_first()[i]).spec_valid() by {
                assert(map.drop_first()[i] == map[i + 1]);
            }
            lemma_usable_frame_aligned(map.drop_first(), n - map[0].spec_frame_count());
        }
    }
}

/// Number of usable frames of a map.
pub open spec fn usable_frame_total(map: Seq<MemoryRegion>) -> int
    decreases map.len(),
{
    if map.len() == 0 {
        0
    } else {
        map[0].spec_frame_count() + usable_frame_total(map.drop_first())
    }
}

/// A map has a usable frame for exactly the numbers below the total of its
/// regions' frames.
pub proof fn lemma_usable_frame_some(map: Seq<MemoryRegion>, n: int)
    ensures
        usable_frame(map, n) is Some <==> 0 <= n < usable_frame_total(map),
        usable_frame_total(map) >= 0,
    decreases map.len(),
{
    if map.len() > 0 {
        lemma_usable_frame_some(map.drop_first(), n - map[0].spec_frame_count());
        lemma_usable_frame_some(map.drop_first(), 0);
    }
}

/// Whether the regions with frames lie in ascending order without sharing a
/// frame: the last frame of each lies below the first frame of every later one.
pub open spec fn spec_regions_ascend(map: Seq<MemoryRegion>) -> bool {
    forall|i: int, j: int|
        0 <= i < j < map.len() && (#[trigger] map[i]).spec_frame_count() > 0 && (
        #[trigger] map[j]).spec_frame_count() > 0 ==> frame_of(map[i].end_addr - 1) < frame_of(
            map[j].start_addr as int,
        )
}

/// Every frame of a map lies above `bound` where the first frame of every region
/// with frames does.
pub proof fn lemma_frames_above(map: Seq<MemoryRegion>, n: int, bound: int)
    requires
        forall|j: int|
            0 <= j < map.len() && (#[trigger] map[j]).spec_frame_count() > 0 ==> bound < frame_of(
                map[j].start_addr as int,
            ),
        usable_frame(map, n) is Some,
    ensures
        bound < usable_frame(map, n).unwrap(),
    decreases map.len(),
{
    if map.len() > 0 && n >= 0 {
        if n < map[0].spec_frame_count() {
            assert(map[0].spec_frame_count() > 0);
        } else {
            let rest = map.drop_first();
            assert forall|j: int|
                0 <= j < rest.len() && (#[trigger] rest[j]).spec_frame_count() > 0 implies bound
                < frame_of(rest[j].start_addr as int) by {
                assert(rest[j] == map[j + 1]);
            }
            lemma_frames_above(rest, n - map[0].spec_frame_count(), bound);
        }
    }
}

/// A frame is handed out at most once: where the regions of the map lie in
/// ascending order without sharing a frame, the frames come in strictly
/// ascending order, so that no two calls are given the same frame.
pub proof fn lemma_frames_ascend(map: Seq<MemoryRegion>, n: int, m: int)
    requires
        spec_regions_ascend(map),
        0 <= n < m,
        usable_frame(map, m) is Some,
    ensures
        usable_frame(map, n) is Some,
        usable_frame(map, n).unwrap() < usable_frame(map, m).unwrap(),
    decreases map.len(),
{
    if map.len() > 0 {
        let first = map[0];
        let rest = map.drop_first();
        let count = first.spec_frame_count();
        assert forall|i: int, j: int|
            0 <= i < j < rest.len() && (#[trigger] rest[i]).spec_frame_count() > 0 && (
            #[trigger] rest[j]).spec_frame_count() > 0 implies frame_of(rest[i].end_addr - 1)
            < frame_of(rest[j].start_addr as int) by {
            assert(rest[i] == map[i + 1]);
            assert(rest[j] == map[j + 1]);
        }
        if m < count {
        } else if n < count {
            assert forall|j: int|
                0 <= j < rest.len() && (#[trigger] rest[j]).spec_frame_count() > 0 implies frame_of(
                first.end_addr - 1,
            ) < frame_of(rest[j].start_addr as int) by {
                assert(rest[j] == map[j + 1]);
                assert(map[0].spec_frame_count() > 0);
            }
            lemma_frames_above(rest, m - count, frame_of(first.end_addr - 1));
        } else {
            lemma_frames_ascend(rest, n - count, m - count);
        }
    }
}

} // verus!
