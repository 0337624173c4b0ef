//! The kernel heap: where it lies, the pages that back it, and the allocator
//! that hands out its memory.
use vstd::prelude::*;
use crate::memory::BootInfoFrameAllocator;
use crate::paging::{page_containing, Mapping};

pub mod fixed_block;

verus! {

/// The first address of the heap.
pub const HEAP_START: u64 = 0x_4444_4444_0000;

/// Bytes in the heap.
pub const HEAP_SIZE: u64 = 0x100 * 0x1000;

/// Pages in the heap.
pub const HEAP_PAGES: usize = 0x100;

/// Flags of a heap page: present and writable, for the kernel alone.
pub const HEAP_FLAGS: u64 = 3;

/// Why the pages of the heap could not be given frames.
#[derive(Debug, Clone, Copy, PartialEq, Eq, Structural)]
pub enum MapToError {
    /// A frame was needed and the allocator had none.
    FrameAllocationFailed,
}

/// The address of page `k` of the heap.
pub open spec fn spec_heap_page(k: int) -> u64 {
    (HEAP_START + 0x1000 * k) as u64
}

/// The pages of the heap, from the page of its first byte to the page of its last,
/// each with a frame of its own, present and writable.
///
/// Fails, with `FrameAllocationFailed`, exactly when the allocator has fewer
/// frames left than the heap has pages; it has none left then.
pub fn init_heap(frame_allocator: &mut BootInfoFrameAllocator) -> (r: Result<
    Vec<Mapping>,
    MapToError,
>)
    requires
        old(frame_allocator).wf(),
    ensures
        final(frame_allocator).wf(),
        final(frame_allocator).memory_map == old(frame_allocator).memory_map,
        r is Ok <==> old(frame_allocator).spec_available() >= HEAP_PAGES,
        match r {
            Ok(v) => v@.len() == HEAP_PAGES && final(frame_allocator).next == old(
                frame_allocator,
            ).next + HEAP_PAGES && forall|k: int|
                0 <= k < HEAP_PAGES ==> #[trigger] v@[k] == (Mapping {
                    page: spec_heap_page(k),
                    frame: old(frame_allocator).spec_frame(k),
                    flags: HEAP_FLAGS,
                }),
            Err(e) => e == MapToError::FrameAllocationFailed && final(frame_allocator).next == old(
                frame_allocator,
            ).next + old(frame_allocator).spec_available(),
        },
{
    let frames = match frame_allocator.allocate_frames(HEAP_PAGES) {
        Some(f) => f,
        None => {
            return Err(MapToError::FrameAllocationFailed);
        },
    };
    let start = page_containing(HEAP_START);
    let end = page_containing(HEAP_START + HEAP_SIZE - 1);
    let mut v: Vec<Mapping> = Vec::new();
    let mut page = start;
    let mut k: usize = 0;
    while page <= end
        invariant
            start == HEAP_START,
            end == HEAP_START + HEAP_SIZE - 0x1000,
            k <= HEAP_PAGES,
            page == HEAP_START + 0x1000 * k,
            frames@.len() == HEAP_PAGES,
            v@.len() == k,
            forall|j: int|
                0 <= j < k ==> #[trigger] v@[j] == (Mapping {
                    page: spec_heap_page(j),
                    frame: frames@[j],
                    flags: HEAP_FLAGS,
                }),
        decreases HEAP_PAGES - k,
    {
        v.push(Mapping { page, frame: frames[k], flags: HEAP_FLAGS });
        page += 0x1000;
        k += 1;
    }
    Ok(v)
}

} // verus!
