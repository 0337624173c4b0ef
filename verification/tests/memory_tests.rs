use lobster::allocator::{init_heap, MapToError, HEAP_SIZE, HEAP_START};
use lobster::memory::{
    memory_map_valid, BootInfoFrameAllocator, LinearFrameAllocator, MemoryRegion,
    MemoryRegionType,
};
use lobster::paging::Mapping;

fn region(start: u64, end: u64, kind: MemoryRegionType) -> MemoryRegion {
    MemoryRegion { start_addr: start, end_addr: end, region_type: kind }
}

fn map() -> Vec<MemoryRegion> {
    vec![
        region(0, 0x1000, MemoryRegionType::FrameZero),
        region(0x1000, 0x3000, MemoryRegionType::Usable),
        region(0x3000, 0x10_0000, MemoryRegionType::Reserved),
        region(0x10_0000, 0x10_0000, MemoryRegionType::Usable),
        region(0x20_0000, 0x20_2800, MemoryRegionType::Usable),
        region(0x30_0000, 0x40_0000, MemoryRegionType::Kernel),
        region(0x40_0800, 0x40_1000, MemoryRegionType::Usable),
    ]
}

fn all_frames(mut next: impl FnMut() -> Option<u64>) -> Vec<u64> {
    let mut v = Vec::new();
    while let Some(f) = next() {
        v.push(f);
    }
    v
}

#[test]
fn usable_frames_are_handed_out_in_order() {
    let mut a = BootInfoFrameAllocator::init(map(), 0);
    let frames = all_frames(|| a.allocate_frame());
    assert_eq!(frames, vec![0x1000, 0x2000, 0x20_0000, 0x20_1000, 0x20_2000, 0x40_0000]);
    assert_eq!(a.next, 6);
    assert_eq!(a.allocate_frame(), None);
    assert_eq!(a.next, 6);
}

#[test]
fn frames_are_handed_out_once() {
    let mut a = BootInfoFrameAllocator::init(
        vec![region(0, 64 * 0x10_0000, MemoryRegionType::Usable)],
        0,
    );
    let frames = all_frames(|| a.allocate_frame());
    assert_eq!(frames.len(), 64 * 256);
    assert!(frames.windows(2).all(|w| w[0] + 4096 == w[1]));
    assert!(frames.iter().all(|f| f % 4096 == 0));
}

#[test]
fn used_frames_are_passed_over() {
    let mut a = BootInfoFrameAllocator::init(map(), 4);
    assert_eq!(a.allocate_frame(), Some(0x20_2000));
    assert_eq!(a.allocate_frame(), Some(0x40_0000));
    assert_eq!(a.allocate_frame(), None);
    let mut b = BootInfoFrameAllocator::init(map(), 60);
    assert_eq!(b.allocate_frame(), None);
    assert_eq!(b.next, 60);
    let mut c = BootInfoFrameAllocator::init(map(), usize::MAX);
    assert_eq!(c.allocate_frame(), None);
}

#[test]
fn empty_map_has_no_frames() {
    let mut a = BootInfoFrameAllocator::init(Vec::new(), 0);
    assert_eq!(a.allocate_frame(), None);
    assert_eq!(a.allocate_frames(0), Some(Vec::new()));
    assert_eq!(a.allocate_frames(1), None);
}

#[test]
fn frames_in_bulk() {
    let mut a = BootInfoFrameAllocator::init(map(), 1);
    assert_eq!(a.allocate_frames(3), Some(vec![0x2000, 0x20_0000, 0x20_1000]));
    assert_eq!(a.next, 4);
    assert_eq!(a.allocate_frames(3), None);
    assert_eq!(a.next, 6);
    assert_eq!(a.allocate_frames(0), Some(Vec::new()));
}

#[test]
fn linear_allocator_starts_from_zero() {
    let mut a = LinearFrameAllocator::init(map());
    assert_eq!(a.get_used(), 0);
    assert_eq!(a.allocate_frame(), Some(0x1000));
    assert_eq!(a.get_used(), 1);
    let rest = all_frames(|| a.allocate_frame());
    assert_eq!(rest, vec![0x2000, 0x20_0000, 0x20_1000, 0x20_2000, 0x40_0000]);
    assert_eq!(a.get_used(), 6);
    assert_eq!(a.allocate_frame(), None);
    assert_eq!(a.get_used(), 6);
}

#[test]
fn frame_counts_of_regions() {
    assert_eq!(region(0x1000, 0x3000, MemoryRegionType::Usable).frame_count(), 2);
    assert_eq!(region(0x1000, 0x3001, MemoryRegionType::Usable).frame_count(), 3);
    assert_eq!(region(0x1000, 0x1001, MemoryRegionType::Usable).frame_count(), 1);
    assert_eq!(region(0x1000, 0x1000, MemoryRegionType::Usable).frame_count(), 0);
    assert_eq!(region(0x3000, 0x1000, MemoryRegionType::Usable).frame_count(), 0);
    assert_eq!(region(0x1000, 0x3000, MemoryRegionType::Bootloader).frame_count(), 0);
    assert_eq!(region(0, u64::MAX, MemoryRegionType::Usable).frame_count(), 1 << 52);
}

#[test]
fn map_validity() {
    assert!(memory_map_valid(&map()));
    assert!(memory_map_valid(&Vec::new()));
    assert!(memory_map_valid(&vec![region(0, 1 << 52, MemoryRegionType::Usable)]));
    assert!(!memory_map_valid(&vec![region(0, (1 << 52) + 1, MemoryRegionType::Usable)]));
    assert!(memory_map_valid(&vec![region(0, u64::MAX, MemoryRegionType::Reserved)]));
}

#[test]
fn heap_pages_are_mapped_to_fresh_frames() {
    let mut a = BootInfoFrameAllocator::init(
        vec![
            region(0x1000, 0x5000, MemoryRegionType::Usable),
            region(0x100_0000, 0x500_0000, MemoryRegionType::Usable),
        ],
        1,
    );
    let heap = init_heap(&mut a).unwrap();
    assert_eq!(heap.len(), 256);
    assert_eq!(heap[0], Mapping { page: 0x4444_4444_0000, frame: 0x2000, flags: 3 });
    assert_eq!(heap[2], Mapping { page: 0x4444_4444_2000, frame: 0x4000, flags: 3 });
    assert_eq!(heap[3], Mapping { page: 0x4444_4444_3000, frame: 0x100_0000, flags: 3 });
    assert_eq!(
        heap[255],
        Mapping { page: HEAP_START + HEAP_SIZE - 0x1000, frame: 0x100_0000 + 252 * 0x1000, flags: 3 }
    );
    assert_eq!(a.next, 257);
    assert_eq!(a.allocate_frame(), Some(0x100_0000 + 253 * 0x1000));
}

#[test]
fn heap_needs_a_frame_for_every_page() {
    let mut a = BootInfoFrameAllocator::init(
        vec![region(0, 255 * 0x1000, MemoryRegionType::Usable)],
        0,
    );
    assert_eq!(init_heap(&mut a), Err(MapToError::FrameAllocationFailed));
    assert_eq!(a.next, 255);
    let mut b = BootInfoFrameAllocator::init(
        vec![region(0, 256 * 0x1000, MemoryRegionType::Usable)],
        0,
    );
    assert!(init_heap(&mut b).is_ok());
    assert_eq!(b.allocate_frame(), None);
}
