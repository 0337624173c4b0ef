use lobster::allocator::fixed_block::FixedBlockAlloc;
use lobster::allocator::{init_heap, HEAP_SIZE, HEAP_START};
use lobster::memory::{memory_map_valid, BootInfoFrameAllocator, MemoryRegion, MemoryRegionType};
use lobster::process::Process;
use lobster::threading::scheduler::{Scheduler, TaskState};
use x86_64::structures::paging::PageTable;

/// The memory map of a machine with 64 MiB of free memory above the first MiB.
fn memory_map() -> Vec<MemoryRegion> {
    vec![
        MemoryRegion { start_addr: 0, end_addr: 0x1000, region_type: MemoryRegionType::FrameZero },
        MemoryRegion {
            start_addr: 0x1000,
            end_addr: 0x9_F000,
            region_type: MemoryRegionType::Bootloader,
        },
        MemoryRegion {
            start_addr: 0xF_0000,
            end_addr: 0x10_0000,
            region_type: MemoryRegionType::Reserved,
        },
        MemoryRegion {
            start_addr: 0x10_0000,
            end_addr: 0x40_0000,
            region_type: MemoryRegionType::Kernel,
        },
        MemoryRegion {
            start_addr: 0x40_0000,
            end_addr: 0x40_0000 + 64 * 0x10_0000,
            region_type: MemoryRegionType::Usable,
        },
    ]
}

fn program() -> Vec<u8> {
    let mut f = vec![0u8; 0x2200];
    f[0..4].copy_from_slice(&[0x7F, 0x45, 0x4C, 0x46]);
    f[4] = 2;
    f[5] = 1;
    f[18] = 0x3E;
    f[24..32].copy_from_slice(&0x20_1120u64.to_le_bytes());
    f[32..40].copy_from_slice(&64u64.to_le_bytes());
    f[56..58].copy_from_slice(&1u16.to_le_bytes());
    f[64..68].copy_from_slice(&1u32.to_le_bytes());
    f[72..80].copy_from_slice(&0x200u64.to_le_bytes());
    f[80..88].copy_from_slice(&0x20_1000u64.to_le_bytes());
    f[96..104].copy_from_slice(&0x2000u64.to_le_bytes());
    f[104..112].copy_from_slice(&0x3000u64.to_le_bytes());
    f
}

#[test]
fn boot_with_64_mib_reaches_the_first_process() {
    let map = memory_map();
    assert!(memory_map_valid(&map));
    let mut frames = BootInfoFrameAllocator::init(map, 0);

    let heap = init_heap(&mut frames).unwrap();
    assert_eq!(heap.len(), 256);
    assert_eq!(heap[0].frame, 0x40_0000);
    let mut allocator = FixedBlockAlloc::new();
    allocator.init(HEAP_START, HEAP_SIZE);
    assert_eq!(allocator.allocate(1024, 1024), Some(HEAP_START));

    let kernel = (PageTable::new(), PageTable::new(), PageTable::new());
    let process =
        Process::spawn_from_file(&program(), &mut frames, &kernel.0, &kernel.1, &kernel.2, 0x5000)
            .unwrap();
    assert_eq!(process.page_table_addr, 0x5000);
    assert_eq!(process.entry_offset, 0x20_1120);
    assert_eq!(process.user_map.len(), 17 + 3);
    assert_eq!(frames.next, 256 + 2 + 17 + 3);

    let mut scheduler = Scheduler::new();
    scheduler.push_task(process);
    scheduler.enable();
    let registers = lobster::process::ProcessState {
        rbx: 0,
        rbp: 0,
        r12: 0,
        r13: 0,
        r14: 0,
        r15: 0,
        rsp: 0,
    };
    let mut entered = 0;
    for _ in 0..100 {
        if scheduler.tick(registers, 0x33, 0x2B).is_some() {
            entered += 1;
        }
    }
    assert_eq!(entered, 5);
    assert_eq!(scheduler.tasks[0].state, TaskState::RUNNING);
    assert!(frames.allocate_frames(64 * 256 - 278).is_some());
    assert_eq!(frames.allocate_frame(), None);
}
