//! Processes: the page tables and the user pages of a new address space, the
//! saved registers of a process, and what entering or resuming it takes.
use vstd::prelude::*;
use x86_64::structures::paging::PageTable;
use crate::elf::{do_stuff, page_addresses, ElfLoadError, Regions};
use crate::memory::{frame_containing, frame_of, BootInfoFrameAllocator, PHYS_ADDR_LIMIT};
use crate::paging::{
    containing_page, entry_bits, page_containing, spec_canonical, table_copy_entry, table_entries,
    table_new, table_set_addr, table_zero, Mapping, PRESENT, USER_ACCESSIBLE, WRITABLE,
};

verus! {

/// Where the code of a built-in user program is mapped.
pub const USERSPACE_VIRT_BASE: u64 = 0x400000;

/// The top of the user stack; the page at this address is the last of the stack.
pub const USERSPACE_STACK: u64 = 0x810000;

/// The lowest address of the user stack.
pub const USERSPACE_STACK_BASE: u64 = 0x800000;

/// Pages of the user stack.
pub const STACK_PAGES: usize = 17;

/// Frames that the page tables of a new address space take.
pub const TABLE_FRAMES: usize = 2;

/// Flags of a page that user code may read and write.
pub const USER_FLAGS: u64 = 7;

/// Flags of a page-table entry for the kernel alone.
pub const KERNEL_FLAGS: u64 = 3;

/// The interrupt-enable bit of the flags register.
pub const RFLAGS_INTERRUPT: u64 = 0x200;

/// What a process is doing.
#[derive(Debug, Clone, Copy, PartialEq, Eq, Structural)]
pub enum TaskState {
    READY,
    RUNNING,
    WAITING,
    DONE,
}

/// The registers that a process keeps across a switch.
#[derive(Debug, Clone, Copy, PartialEq, Eq, Structural)]
pub struct ProcessState {
    pub rbx: u64,
    pub rbp: u64,
    pub r12: u64,
    pub r13: u64,
    pub r14: u64,
    pub r15: u64,
    pub rsp: u64,
}

/// The page tables of a new address space. The top-level table is a value for
/// its owner to place; the tables below it belong in the frames named.
pub struct ProcessTables {
    /// The top-level table.
    pub level_4: PageTable,
    /// The table behind entry 0 of the top-level table.
    pub level_3: PageTable,
    pub level_3_frame: u64,
    /// The table behind entry 0 of that table.
    pub level_2: PageTable,
    pub level_2_frame: u64,
}

impl ProcessTables {
    /// Whether the tables are those of a new address space beside the kernel's
    /// `current` tables, with the two tables below the top-level table in the
    /// frames `frames`.
    ///
    /// Entries 1 to 511 of the top-level table and of the table behind its entry 0
    /// are the kernel's own. Entry 0 of the top-level table leads to the first
    /// frame, for user code to reach; entry 0 of the table there leads to the
    /// second frame. The table there holds one entry: the kernel's first, through
    /// which the text screen is reached.
    pub open spec fn spec_built(
        self,
        current: PageTable,
        current_0: PageTable,
        current_0_0: PageTable,
        frames: Seq<u64>,
    ) -> bool {
        &&& self.level_3_frame == frames[0]
        &&& self.level_2_frame == frames[1]
        &&& table_entries(self.level_4).len() == 512
        &&& table_entries(self.level_3).len() == 512
        &&& table_entries(self.level_2).len() == 512
        &&& table_entries(self.level_4)[0] == entry_bits(frames[0], USER_FLAGS)
        &&& table_entries(self.level_3)[0] == entry_bits(frames[1], KERNEL_FLAGS)
        &&& table_entries(self.level_2)[0] == table_entries(current_0_0)[0]
        &&& forall|i: int|
            1 <= i < 512 ==> #[trigger] table_entries(self.level_4)[i] == table_entries(current)[i]
        &&& forall|i: int|
            1 <= i < 512 ==> #[trigger] table_entries(self.level_3)[i] == table_entries(
                current_0,
            )[i]
        &&& forall|i: int| 1 <= i < 512 ==> #[trigger] table_entries(self.level_2)[i] == 0
    }
}

/// Copies entries 1 to 511 of `from` into `t`.
fn copy_kernel_entries(t: &mut PageTable, from: &PageTable)
    requires
        table_entries(*old(t)).len() == 512,
    ensures
        table_entries(*final(t)).len() == 512,
        table_entries(*final(t))[0] == table_entries(*old(t))[0],
        forall|i: int|
            1 <= i < 512 ==> #[trigger] table_entries(*final(t))[i] == table_entries(*from)[i],
{
    let mut i: usize = 1;
    while i < 512
        invariant
            1 <= i <= 512,
            table_entries(*t).len() == 512,
            table_entries(*t)[0] == table_entries(*old(t))[0],
            forall|j: int| 1 <= j < i ==> #[trigger] table_entries(*t)[j] == table_entries(*from)[j],
        decreases 512 - i,
    {
        table_copy_entry(t, i, from, i);
        i += 1;
    }
}

/// The page tables of a new address space beside the kernel's.
///
/// Takes two frames from the allocator, for the two tables below the top-level
/// table. `None` exactly when the allocator has fewer left; it has none left
/// then.
pub fn new_page_table(
    current: &PageTable,
    current_0: &PageTable,
    current_0_0: &PageTable,
    frame_allocator: &mut BootInfoFrameAllocator,
) -> (r: Option<ProcessTables>)
    requires
        old(frame_allocator).wf(),
    ensures
        final(frame_allocator).wf(),
        final(frame_allocator).memory_map == old(frame_allocator).memory_map,
        r is Some <==> old(frame_allocator).spec_available() >= TABLE_FRAMES,
        match r {
            Some(t) => final(frame_allocator).next == old(frame_allocator).next + TABLE_FRAMES
                && t.spec_built(
                *current,
                *current_0,
                *current_0_0,
                Seq::new(TABLE_FRAMES as nat, |k: int| old(frame_allocator).spec_frame(k)),
            ),
            None => final(frame_allocator).next == old(frame_allocator).next + old(
                frame_allocator,
            ).spec_available(),
        },
{
    let frames = match frame_allocator.allocate_frames(TABLE_FRAMES) {
        Some(f) => f,
        None => {
            return None;
        },
    };
    let mut level_4 = table_new();
    table_zero(&mut level_4);
    table_set_addr(&mut level_4, 0, frames[0], PRESENT | WRITABLE | USER_ACCESSIBLE);
    assert(PRESENT | WRITABLE | USER_ACCESSIBLE == USER_FLAGS) by (bit_vector);
    copy_kernel_entries(&mut level_4, current);
    let mut level_3 = table_new();
    table_zero(&mut level_3);
    copy_kernel_entries(&mut level_3, current_0);
    table_set_addr(&mut level_3, 0, frames[1], PRESENT | WRITABLE);
    assert(PRESENT | WRITABLE == KERNEL_FLAGS) by (bit_vector);
    let mut level_2 = table_new();
    table_copy_entry(&mut level_2, 0, current_0_0, 0);
    assert(frames@[0] == old(frame_allocator).spec_frame(0));
    assert(frames@[1] == old(frame_allocator).spec_frame(1));
    Some(
        ProcessTables {
            level_4,
            level_3,
            level_3_frame: frames[0],
            level_2,
            level_2_frame: frames[1],
        },
    )
}

/// Why a process could not be made.
#[derive(Debug, Clone, Copy, PartialEq, Eq)]
pub enum SpawnError {
    /// The frame allocator has too few frames left.
    FrameAllocationFailed,
    /// The program file cannot be loaded.
    Elf(ElfLoadError),
    /// A page of the program lies where no user page can: its address is not
    /// canonical.
    BadAddress(u64),
    /// A page of the program lies on a page of the user stack.
    PageAlreadyMapped(u64),
}

/// The address of page `k` of the user stack.
pub open spec fn spec_stack_page(k: int) -> u64 {
    (USERSPACE_STACK_BASE + 0x1000 * k) as u64
}

/// Whether `page` is a page of the user stack.
pub open spec fn spec_on_stack(page: u64) -> bool {
    USERSPACE_STACK_BASE <= page <= USERSPACE_STACK
}

/// Whether `mappings` map `pages`, in their order, to the frames that the
/// allocator hands out from its call number `first` on, for user code to read and
/// write.
pub open spec fn spec_user_mappings(
    mappings: Seq<Mapping>,
    pages: Seq<u64>,
    allocator: BootInfoFrameAllocator,
    first: int,
) -> bool {
    &&& mappings.len() == pages.len()
    &&& forall|k: int|
        0 <= k < pages.len() ==> #[trigger] mappings[k] == (Mapping {
            page: pages[k],
            frame: allocator.spec_frame(first + k),
            flags: USER_FLAGS,
        })
}

/// The pages of the user stack, from the lowest to the page at the top address,
/// each in a frame of its own.
///
/// Fails exactly when the allocator has fewer than 17 frames left.
pub fn map_stack(frame_allocator: &mut BootInfoFrameAllocator) -> (r: Result<
    Vec<Mapping>,
    SpawnError,
>)
    requires
        old(frame_allocator).wf(),
    ensures
        final(frame_allocator).wf(),
        final(frame_allocator).memory_map == old(frame_allocator).memory_map,
        r is Ok <==> old(frame_allocator).spec_available() >= STACK_PAGES,
        match r {
            Ok(v) => final(frame_allocator).next == old(frame_allocator).next + STACK_PAGES
                && spec_user_mappings(
                v@,
                Seq::new(STACK_PAGES as nat, |k: int| spec_stack_page(k)),
                *old(frame_allocator),
                0,
            ),
            Err(e) => e == SpawnError::FrameAllocationFailed && final(frame_allocator).next == old(
                frame_allocator,
            ).next + old(frame_allocator).spec_available(),
        },
{
    let frames = match frame_allocator.allocate_frames(STACK_PAGES) {
        Some(f) => f,
        None => {
            return Err(SpawnError::FrameAllocationFailed);
        },
    };
    let start = page_containing(USERSPACE_STACK_BASE);
    let end = page_containing(USERSPACE_STACK);
    let mut v: Vec<Mapping> = Vec::new();
    let mut page = start;
    let mut k: usize = 0;
    while page <= end
        invariant
            start == USERSPACE_STACK_BASE,
            end == USERSPACE_STACK,
            k <= STACK_PAGES,
            page == USERSPACE_STACK_BASE + 0x1000 * k,
            frames@.len() == STACK_PAGES,
            v@.len() == k,
            forall|j: int|
                0 <= j < k ==> #[trigger] v@[j] == (Mapping {
                    page: spec_stack_page(j),
                    frame: frames@[j],
                    flags: USER_FLAGS,
                }),
        decreases STACK_PAGES - k,
    {
        v.push(Mapping { page, frame: frames[k], flags: USER_FLAGS });
        page += 0x1000;
        k += 1;
    }
    Ok(v)
}

/// Whether no two of the mappings are for the same page.
pub open spec fn spec_pages_distinct(mappings: Seq<Mapping>) -> bool {
    forall|i: int, j: int|
        0 <= i < j < mappings.len() ==> (#[trigger] mappings[i]).page != (#[trigger] mappings[j]).page
}

/// The physical address that the mappings give for a virtual address: that of its
/// page's frame, at the same offset; `None` where no mapping is for its page.
pub open spec fn spec_translate(mappings: Seq<Mapping>, addr: u64) -> Option<u64>
    decreases mappings.len(),
{
    if mappings.len() == 0 {
        None
    } else if mappings[0].page == addr - addr % 4096 {
        Some((mappings[0].frame + addr % 4096) as u64)
    } else {
        spec_translate(mappings.drop_first(), addr)
    }
}

/// A process: its address space, its entry point, its saved registers, its state.
pub struct Process {
    /// The page tables that the address space starts out with.
    pub tables: ProcessTables,
    pub task_state: TaskState,
    /// The registers saved at the last switch away; `None` before the first run.
    pub process_state: Option<ProcessState>,
    /// Physical address of the top-level page table.
    pub page_table_addr: u64,
    /// Address of the first instruction.
    pub entry_offset: u64,
    /// The pages of the program, by their virtual addresses.
    pub regions: Regions,
    /// The user pages with their frames: the stack's, then the program's.
    pub user_map: Vec<Mapping>,
}

/// What it takes to run a process.
#[derive(Debug, Clone, Copy, PartialEq, Eq, Structural)]
pub enum Activation {
    /// Switch to the page table and go on where the registers were saved.
    Resume { page_table: u64, state: ProcessState },
    /// Switch to the page table and enter ring 3 for the first time with the
    /// frame on the stack.
    Enter { page_table: u64, frame: IretFrame },
}

/// The five words that a return from an interrupt takes off the stack, in the
/// order in which they are pushed.
#[derive(Debug, Clone, Copy, PartialEq, Eq, Structural)]
pub struct IretFrame {
    pub ss: u64,
    pub rsp: u64,
    pub rflags: u64,
    pub cs: u64,
    pub rip: u64,
}

impl Process {
    /// The frames and addresses of the process are well formed: every user page
    /// is mapped once, at a page boundary, to a frame.
    pub open spec fn wf(self) -> bool {
        &&& spec_pages_distinct(self.user_map@)
        &&& forall|i: int|
            0 <= i < self.user_map@.len() ==> (#[trigger] self.user_map@[i]).page % 4096 == 0
                && self.user_map@[i].frame % 4096 == 0 && self.user_map@[i].frame
                < PHYS_ADDR_LIMIT
    }

    /// The state of the process.
    pub fn get_state(&self) -> (r: TaskState)
        ensures
            r == self.task_state,
    {
        self.task_state
    }

    /// Sets the state of the process; nothing else changes.
    pub fn update_state(&mut self, state: TaskState)
        ensures
            final(self).task_state == state,
            final(self).process_state == old(self).process_state,
            final(self).page_table_addr == old(self).page_table_addr,
            final(self).entry_offset == old(self).entry_offset,
            final(self).regions == old(self).regions,
            final(self).user_map == old(self).user_map,
            final(self).tables == old(self).tables,
    {
        self.task_state = state;
    }

    /// What it takes to run the process.
    pub open spec fn spec_activate(self, user_cs: u16, user_ds: u16) -> Activation {
        match self.process_state {
            Some(state) => Activation::Resume { page_table: self.page_table_addr, state },
            None => Activation::Enter {
                page_table: self.page_table_addr,
                frame: IretFrame {
                    ss: user_ds as u64,
                    rsp: USERSPACE_STACK,
                    rflags: RFLAGS_INTERRUPT,
                    cs: user_cs as u64,
                    rip: self.entry_offset,
                },
            },
        }
    }

    /// The process with its registers saved.
    pub open spec fn spec_deactivate(self, state: ProcessState) -> Process {
        Process { process_state: Some(state), ..self }
    }

    /// What it takes to run the process: to resume it where its registers were
    /// saved, or, before its first run, to enter ring 3 at its entry point, on the
    /// user stack, with interrupts enabled and the user-mode selectors given.
    pub fn activate(&self, user_cs: u16, user_ds: u16) -> (r: Activation)
        ensures
            r == self.spec_activate(user_cs, user_ds),
    {
        match self.process_state {
            Some(state) => Activation::Resume { page_table: self.page_table_addr, state },
            None => Activation::Enter {
                page_table: self.page_table_addr,
                frame: IretFrame {
                    ss: user_ds as u64,
                    rsp: USERSPACE_STACK,
                    rflags: RFLAGS_INTERRUPT,
                    cs: user_cs as u64,
                    rip: self.entry_offset,
                },
            },
        }
    }

    /// Saves the registers of the process as it is switched away from. Returns
    /// `false`: the process is suspended, not resumed.
    pub fn deactivate(&mut self, state: ProcessState) -> (r: bool)
        ensures
            !r,
            *final(self) == old(self).spec_deactivate(state),
    {
        self.process_state = Some(state);
        false
    }

    /// The physical address behind a virtual address of the process's user
    /// pages; `None` where the address lies on no user page.
    pub fn translate(&self, addr: u64) -> (r: Option<u64>)
        requires
            self.wf(),
        ensures
            r == spec_translate(self.user_map@, addr),
    {
        let page = addr - addr % 4096;
        let mut i: usize = 0;
        assert(self.user_map@.subrange(0, self.user_map@.len() as int) =~= self.user_map@);
        while i < self.user_map.len()
            invariant
                i <= self.user_map@.len(),
                self.wf(),
                page == addr - addr % 4096,
                spec_translate(self.user_map@, addr) == spec_translate(
                    self.user_map@.subrange(i as int, self.user_map@.len() as int),
                    addr,
                ),
            decreases self.user_map@.len() - i,
        {
            let ghost rest = self.user_map@.subrange(i as int, self.user_map@.len() as int);
            assert(rest[0] == self.user_map@[i as int]);
            assert(rest.drop_first() =~= self.user_map@.subrange(
                i + 1,
                self.user_map@.len() as int,
            ));
            if self.user_map[i].page == page {
                return Some(self.user_map[i].frame + addr % 4096);
            }
            i += 1;
        }
        None
    }
}

/// Every address on a user page of a process translates to the same offset in
/// the frame that the page was given when the process was made: the stack's pages
/// and the program's alike.
pub proof fn lemma_process_translates(p: Process, k: int, offset: u64)
    requires
        p.wf(),
        0 <= k < p.user_map@.len(),
        offset < 4096,
    ensures
        p.user_map@[k].page + offset <= u64::MAX,
        spec_translate(p.user_map@, (p.user_map@[k].page + offset) as u64) == Some(
            (p.user_map@[k].frame + offset) as u64,
        ),
{
    lemma_translate_user_page(p.user_map@, k, offset);
}

/// Where no two mappings are for the same page, every address on a mapped page
/// translates to the same offset in the page's frame.
pub proof fn lemma_translate_user_page(mappings: Seq<Mapping>, i: int, offset: u64)
    requires
        spec_pages_distinct(mappings),
        0 <= i < mappings.len(),
        mappings[i].page % 4096 == 0,
        offset < 4096,
        mappings[i].page + offset <= u64::MAX,
        mappings[i].frame + offset <= u64::MAX,
    ensures
        spec_translate(mappings, (mappings[i].page + offset) as u64) == Some(
            (mappings[i].frame + offset) as u64,
        ),
    decreases mappings.len(),
{
    let addr = (mappings[i].page + offset) as u64;
    assert(addr - addr % 4096 == mappings[i].page);
    if i > 0 {
        let rest = mappings.drop_first();
        assert(mappings[0].page != mappings[i].page);
        assert(rest[i - 1] == mappings[i]);
        assert forall|a: int, b: int| 0 <= a < b < rest.len() implies (#[trigger] rest[a]).page != (
        #[trigger] rest[b]).page by {
            assert(rest[a] == mappings[a + 1]);
            assert(rest[b] == mappings[b + 1]);
        }
        lemma_translate_user_page(rest, i - 1, offset);
    }
}

/// The first page among `pages` that cannot be a user page of a program: one
/// whose address is not canonical, or one of the user stack.
pub open spec fn spec_first_bad_page(pages: Seq<u64>) -> Option<SpawnError>
    decreases pages.len(),
{
    if pages.len() == 0 {
        None
    } else if !spec_canonical(pages[0]) {
        Some(SpawnError::BadAddress(pages[0]))
    } else if spec_on_stack(pages[0]) {
        Some(SpawnError::PageAlreadyMapped(pages[0]))
    } else {
        spec_first_bad_page(pages.drop_first())
    }
}

/// Whether a page can be a user page of a program.
pub open spec fn spec_page_admitted(page: u64) -> bool {
    spec_canonical(page) && !spec_on_stack(page)
}

/// The page that an error about a page names.
pub open spec fn spec_bad_page_of(e: SpawnError) -> u64 {
    match e {
        SpawnError::BadAddress(page) => page,
        SpawnError::PageAlreadyMapped(page) => page,
        _ => 0,
    }
}

/// What the search for a bad page finds: nothing exactly when every page is
/// admitted; else the first page that is not, under the error that says why.
pub proof fn lemma_first_bad_page(pages: Seq<u64>)
    ensures
        match spec_first_bad_page(pages) {
            None => forall|i: int| 0 <= i < pages.len() ==> spec_page_admitted(#[trigger] pages[i]),
            Some(e) => exists|k: int|
                0 <= k < pages.len() && #[trigger] pages[k] == spec_bad_page_of(e)
                    && !spec_page_admitted(pages[k]) && (e == if !spec_canonical(pages[k]) {
                    SpawnError::BadAddress(pages[k])
                } else {
                    SpawnError::PageAlreadyMapped(pages[k])
                }) && forall|j: int| 0 <= j < k ==> spec_page_admitted(#[trigger] pages[j]),
        },
    decreases pages.len(),
{
    if pages.len() > 0 {
        let rest = pages.drop_first();
        lemma_first_bad_page(rest);
        if spec_page_admitted(pages[0]) {
            match spec_first_bad_page(rest) {
                None => {
                    assert forall|i: int| 0 <= i < pages.len() implies spec_page_admitted(
                        #[trigger] pages[i],
                    ) by {
                        if i > 0 {
                            assert(rest[i - 1] == pages[i]);
                        }
                    }
                },
                Some(e) => {
                    let k = choose|k: int|
                        0 <= k < rest.len() && #[trigger] rest[k] == spec_bad_page_of(e)
                            && !spec_page_admitted(rest[k]) && (e == if !spec_canonical(rest[k]) {
                            SpawnError::BadAddress(rest[k])
                        } else {
                            SpawnError::PageAlreadyMapped(rest[k])
                        }) && forall|j: int| 0 <= j < k ==> spec_page_admitted(#[trigger] rest[j]);
                    assert(pages[k + 1] == rest[k]);
                    assert forall|j: int| 0 <= j < k + 1 implies spec_page_admitted(
                        #[trigger] pages[j],
                    ) by {
                        if j > 0 {
                            assert(rest[j - 1] == pages[j]);
                        }
                    }
                },
            }
        } else {
            assert(pages[0] == pages[0]);
        }
    }
}

/// The first page among `pages` that cannot be a user page of a program.
fn find_bad_page(pages: &Vec<u64>) -> (r: Option<SpawnError>)
    ensures
        r == spec_first_bad_page(pages@),
{
    let mut i: usize = 0;
    assert(pages@.subrange(0, pages@.len() as int) =~= pages@);
    while i < pages.len()
        invariant
            i <= pages@.len(),
            spec_first_bad_page(pages@) == spec_first_bad_page(
                pages@.subrange(i as int, pages@.len() as int),
            ),
        decreases pages@.len() - i,
    {
        let ghost rest = pages@.subrange(i as int, pages@.len() as int);
        assert(rest[0] == pages@[i as int]);
        assert(rest.drop_first() =~= pages@.subrange(i + 1, pages@.len() as int));
        let page = pages[i];
        if containing_page(page).is_none() {
            return Some(SpawnError::BadAddress(page));
        }
        if USERSPACE_STACK_BASE <= page && page <= USERSPACE_STACK {
            return Some(SpawnError::PageAlreadyMapped(page));
        }
        i += 1;
    }
    None
}

/// The pages that the loadable segments of a file reach into.
pub open spec fn spec_image_pages(file: Seq<u8>) -> Set<u64> {
    Set::new(|p: u64| crate::elf::needs_page(crate::elf::spec_file_headers(file), p as int))
}

/// Whether every page of the file's image can be a user page.
pub open spec fn spec_pages_admitted(file: Seq<u8>) -> bool {
    forall|p: u64| spec_image_pages(file).contains(p) ==> spec_page_admitted(p)
}

/// Whether `page` is the lowest page of the file's image that cannot be a user
/// page.
pub open spec fn spec_lowest_bad_page(file: Seq<u8>, page: u64) -> bool {
    &&& spec_image_pages(file).contains(page)
    &&& !spec_page_admitted(page)
    &&& forall|q: u64| spec_image_pages(file).contains(q) && q < page ==> spec_page_admitted(q)
}

/// Frames that a process from the file takes: for its page tables, for its
/// stack, and one for every page of its image.
pub open spec fn spec_spawn_frames(file: Seq<u8>) -> int {
    TABLE_FRAMES + STACK_PAGES + spec_image_pages(file).len()
}

/// What `spawn_from_file` has made, where it has made a process from `file` with
/// an allocator that was `allocator` before: the page tables of the address
/// space with their lower tables in the allocator's next two frames, the 17 pages
/// of the user stack in the 17 frames after them, and the pages of the loaded
/// program, in ascending order of their addresses, in the frames after those.
pub open spec fn spec_spawned(
    p: Process,
    file: Seq<u8>,
    allocator: BootInfoFrameAllocator,
    current: PageTable,
    current_0: PageTable,
    current_0_0: PageTable,
    page_table_addr: u64,
) -> bool {
    &&& p.wf()
    &&& p.task_state == TaskState::READY
    &&& p.process_state is None
    &&& p.page_table_addr == page_table_addr
    &&& p.tables.spec_built(
        current,
        current_0,
        current_0_0,
        Seq::new(TABLE_FRAMES as nat, |k: int| allocator.spec_frame(k)),
    )
    &&& crate::elf::image_loaded(file, crate::elf::spec_file_headers(file), p.regions@)
    &&& p.entry_offset == crate::elf::spec_entry(file)
    &&& p.user_map@.len() == STACK_PAGES + spec_image_pages(file).len()
    &&& forall|k: int|
        0 <= k < p.user_map@.len() ==> (#[trigger] p.user_map@[k]).frame == allocator.spec_frame(
            TABLE_FRAMES + k,
        ) && p.user_map@[k].flags == USER_FLAGS
    &&& forall|k: int|
        0 <= k < STACK_PAGES ==> (#[trigger] p.user_map@[k]).page == spec_stack_page(k)
    &&& forall|k: int|
        STACK_PAGES <= k < p.user_map@.len() ==> spec_image_pages(file).contains(
            (#[trigger] p.user_map@[k]).page,
        )
    &&& forall|page: u64|
        spec_image_pages(file).contains(page) ==> exists|k: int|
            STACK_PAGES <= k < p.user_map@.len() && (#[trigger] p.user_map@[k]).page == page
    &&& forall|i: int, j: int|
        STACK_PAGES <= i < j < p.user_map@.len() ==> (#[trigger] p.user_map@[i]).page < (
        #[trigger] p.user_map@[j]).page
}

impl Process {
    /// Makes a process from a program file: the page tables of its address space,
    /// its user stack, the pages of the program, and the entry point.
    /// `page_table_addr` is the physical address at which the caller keeps the
    /// top-level table.
    ///
    /// The allocator's frames go, in this order, to the two lower page tables, to
    /// the 17 pages of the stack and to the pages of the program in ascending
    /// order. The steps are taken in that order, and the first that fails gives
    /// the error: too few frames for the tables or for the stack, a file that
    /// cannot be loaded, a page of the program that is not canonical or lies on
    /// the stack, too few frames for the program. A process is made exactly when
    /// no step fails.
    pub fn spawn_from_file(
        file: &[u8],
        frame_allocator: &mut BootInfoFrameAllocator,
        current: &PageTable,
        current_0: &PageTable,
        current_0_0: &PageTable,
        page_table_addr: u64,
    ) -> (r: Result<Process, SpawnError>)
        requires
            old(frame_allocator).wf(),
        ensures
            final(frame_allocator).wf(),
            final(frame_allocator).memory_map == old(frame_allocator).memory_map,
            r is Ok <==> crate::elf::spec_load_error(file@) is None && spec_pages_admitted(file@)
                && old(frame_allocator).spec_available() >= spec_spawn_frames(file@),
            match r {
                Ok(p) => spec_spawned(
                    p,
                    file@,
                    *old(frame_allocator),
                    *current,
                    *current_0,
                    *current_0_0,
                    page_table_addr,
                ) && final(frame_allocator).next == old(frame_allocator).next + spec_spawn_frames(
                    file@,
                ),
                Err(SpawnError::FrameAllocationFailed) => (old(frame_allocator).spec_available()
                    < TABLE_FRAMES + STACK_PAGES || (crate::elf::spec_load_error(file@) is None
                    && spec_pages_admitted(file@) && old(frame_allocator).spec_available()
                    < spec_spawn_frames(file@))) && final(frame_allocator).next == old(
                    frame_allocator,
                ).next + old(frame_allocator).spec_available(),
                Err(SpawnError::Elf(e)) => old(frame_allocator).spec_available() >= TABLE_FRAMES
                    + STACK_PAGES && crate::elf::spec_load_error(file@) == Some(e) && final(frame_allocator).next == old(frame_allocator).next + TABLE_FRAMES + STACK_PAGES,
                Err(SpawnError::BadAddress(page)) => old(frame_allocator).spec_available()
                    >= TABLE_FRAMES + STACK_PAGES && crate::elf::spec_load_error(file@) is None
                    && spec_lowest_bad_page(file@, page) && !spec_canonical(page) && final(frame_allocator).next == old(frame_allocator).next + TABLE_FRAMES + STACK_PAGES,
                Err(SpawnError::PageAlreadyMapped(page)) => old(frame_allocator).spec_available()
                    >= TABLE_FRAMES + STACK_PAGES && crate::elf::spec_load_error(file@) is None
                    && spec_lowest_bad_page(file@, page) && spec_canonical(page) && spec_on_stack(
                    page,
                ) && final(frame_allocator).next == old(frame_allocator).next + TABLE_FRAMES
                    + STACK_PAGES,
            },
    {
        let tables = match new_page_table(current, current_0, current_0_0, frame_allocator) {
            Some(t) => t,
            None => {
                return Err(SpawnError::FrameAllocationFailed);
            },
        };
        let ghost after_tables = *frame_allocator;
        let mut user_map = match map_stack(frame_allocator) {
            Ok(v) => v,
            Err(e) => {
                return Err(e);
            },
        };
        let ghost after_stack = *frame_allocator;
        let (regions, entry) = match do_stuff(file) {
            Ok(loaded) => loaded,
            Err(e) => {
                return Err(SpawnError::Elf(e));
            },
        };
        let pages = page_addresses(&regions);
        proof {
            assert(regions@.dom() =~= spec_image_pages(file@));
            lemma_first_bad_page(pages@);
            assert forall|q: u64| spec_image_pages(file@).contains(q) implies pages@.contains(
                q,
            ) by {
                assert(pages@.to_set().contains(q));
            }
            assert forall|i: int| 0 <= i < pages@.len() implies spec_image_pages(file@).contains(
                #[trigger] pages@[i],
            ) by {
                assert(pages@.to_set().contains(pages@[i]));
            }
        }
        match find_bad_page(&pages) {
            Some(e) => {
                proof {
                    let k = choose|k: int|
                        0 <= k < pages@.len() && #[trigger] pages@[k] == spec_bad_page_of(e)
                            && !spec_page_admitted(pages@[k]) && (e == if !spec_canonical(
                            pages@[k],
                        ) {
                            SpawnError::BadAddress(pages@[k])
                        } else {
                            SpawnError::PageAlreadyMapped(pages@[k])
                        }) && forall|j: int| 0 <= j < k ==> spec_page_admitted(#[trigger] pages@[j]);
                    assert forall|q: u64|
                        spec_image_pages(file@).contains(q) && q < pages@[k] implies spec_page_admitted(
                        q,
                    ) by {
                        let j = choose|j: int| 0 <= j < pages@.len() && pages@[j] == q;
                        if j > k {
                            assert(pages@[k] < pages@[j]);
                        }
                    }
                    assert(spec_lowest_bad_page(file@, pages@[k]));
                }
                return Err(e);
            },
            None => {},
        }
        assert(spec_pages_admitted(file@)) by {
            assert forall|q: u64| spec_image_pages(file@).contains(q) implies spec_page_admitted(
                q,
            ) by {
                let j = choose|j: int| 0 <= j < pages@.len() && pages@[j] == q;
                assert(spec_page_admitted(pages@[j]));
            }
        }
        let frames = match frame_allocator.allocate_frames(pages.len()) {
            Some(f) => f,
            None => {
                return Err(SpawnError::FrameAllocationFailed);
            },
        };
        let mut k: usize = 0;
        while k < pages.len()
            invariant
                k <= pages@.len(),
                frames@.len() == pages@.len(),
                user_map@.len() == STACK_PAGES + k,
                forall|j: int|
                    0 <= j < STACK_PAGES ==> #[trigger] user_map@[j] == (Mapping {
                        page: spec_stack_page(j),
                        frame: after_tables.spec_frame(j),
                        flags: USER_FLAGS,
                    }),
                forall|j: int|
                    0 <= j < k ==> #[trigger] user_map@[STACK_PAGES + j] == (Mapping {
                        page: pages@[j],
                        frame: frames@[j],
                        flags: USER_FLAGS,
                    }),
            decreases pages@.len() - k,
        {
            user_map.push(Mapping { page: pages[k], frame: frames[k], flags: USER_FLAGS });
            k += 1;
        }
        let p = Process {
            page_table_addr,
            tables,
            task_state: TaskState::READY,
            process_state: None,
            entry_offset: entry,
            regions,
            user_map,
        };
        proof {
            let a = *old(frame_allocator);
            assert forall|j: int| 0 <= j < p.user_map@.len() implies (#[trigger] p.user_map@[j]).frame
                == a.spec_frame(TABLE_FRAMES + j) && p.user_map@[j].flags == USER_FLAGS
                && p.user_map@[j].page % 4096 == 0 && p.user_map@[j].frame % 4096 == 0
                && p.user_map@[j].frame < PHYS_ADDR_LIMIT by {
                if j < STACK_PAGES {
                    assert(after_tables.spec_frame(j) == a.spec_frame(TABLE_FRAMES + j));
                    lemma_stack_frame(after_tables, j);
                } else {
                    let i = j - STACK_PAGES;
                    assert(p.user_map@[STACK_PAGES + i].page == pages@[i]);
                    assert(frames@[i] == after_stack.spec_frame(i));
                    assert(after_stack.spec_frame(i) == a.spec_frame(TABLE_FRAMES + j));
                    assert(spec_image_pages(file@).contains(pages@[i]));
                }
            }
            assert forall|i: int, j: int| 0 <= i < j < p.user_map@.len() implies (
            #[trigger] p.user_map@[i]).page != (#[trigger] p.user_map@[j]).page by {
                if j < STACK_PAGES {
                } else if i < STACK_PAGES {
                    assert(p.user_map@[STACK_PAGES + (j - STACK_PAGES)].page == pages@[j
                        - STACK_PAGES]);
                    assert(spec_page_admitted(pages@[j - STACK_PAGES]));
                } else {
                    assert(p.user_map@[STACK_PAGES + (j - STACK_PAGES)].page == pages@[j
                        - STACK_PAGES]);
                    assert(p.user_map@[STACK_PAGES + (i - STACK_PAGES)].page == pages@[i
                        - STACK_PAGES]);
                }
            }
            assert forall|i: int, j: int| STACK_PAGES <= i < j < p.user_map@.len() implies (
            #[trigger] p.user_map@[i]).page < (#[trigger] p.user_map@[j]).page by {
                assert(p.user_map@[STACK_PAGES + (j - STACK_PAGES)].page == pages@[j - STACK_PAGES]);
                assert(p.user_map@[STACK_PAGES + (i - STACK_PAGES)].page == pages@[i - STACK_PAGES]);
            }
            assert forall|j: int| STACK_PAGES <= j < p.user_map@.len() implies spec_image_pages(
                file@,
            ).contains((#[trigger] p.user_map@[j]).page) by {
                assert(p.user_map@[STACK_PAGES + (j - STACK_PAGES)].page == pages@[j - STACK_PAGES]);
            }
            assert forall|page: u64| spec_image_pages(file@).contains(page) implies exists|j: int|
                STACK_PAGES <= j < p.user_map@.len() && (#[trigger] p.user_map@[j]).page
                    == page by {
                let i = choose|i: int| 0 <= i < pages@.len() && pages@[i] == page;
                assert(p.user_map@[STACK_PAGES + i].page == page);
            }
        }
        Ok(p)
    }
}

/// The frames of the stack are frames: aligned and inside physical memory.
pub proof fn lemma_stack_frame(a: BootInfoFrameAllocator, j: int)
    requires
        a.wf(),
        0 <= j < a.spec_available(),
    ensures
        a.spec_frame(j) % 4096 == 0,
        a.spec_frame(j) < PHYS_ADDR_LIMIT,
{
    crate::memory::lemma_usable_frame_some(a.memory_map@, a.next + j);
    crate::memory::lemma_usable_frame_aligned(a.memory_map@, a.next + j);
}

/// The address space of a built-in user program whose code lies in the kernel at
/// physical address `code`: the page tables, the user stack, and the page at the
/// user code base mapped to the frame that holds the code.
///
/// `None` exactly when the allocator has fewer than 19 frames left.
pub fn map_process(
    current: &PageTable,
    current_0: &PageTable,
    current_0_0: &PageTable,
    code: u64,
    frame_allocator: &mut BootInfoFrameAllocator,
) -> (r: Option<(ProcessTables, Vec<Mapping>)>)
    requires
        old(frame_allocator).wf(),
        code < PHYS_ADDR_LIMIT,
    ensures
        final(frame_allocator).wf(),
        final(frame_allocator).memory_map == old(frame_allocator).memory_map,
        r is Some <==> old(frame_allocator).spec_available() >= TABLE_FRAMES + STACK_PAGES,
        match r {
            Some((tables, user_map)) => tables.spec_built(
                *current,
                *current_0,
                *current_0_0,
                Seq::new(TABLE_FRAMES as nat, |k: int| old(frame_allocator).spec_frame(k)),
            ) && user_map@.len() == STACK_PAGES + 1 && spec_user_mappings(
                user_map@.subrange(0, STACK_PAGES as int),
                Seq::new(STACK_PAGES as nat, |k: int| spec_stack_page(k)),
                *old(frame_allocator),
                TABLE_FRAMES as int,
            ) && user_map@[STACK_PAGES as int] == (Mapping {
                page: USERSPACE_VIRT_BASE,
                frame: frame_of(code as int) as u64,
                flags: USER_FLAGS,
            }) && final(frame_allocator).next == old(frame_allocator).next + TABLE_FRAMES
                + STACK_PAGES,
            None => final(frame_allocator).next == old(frame_allocator).next + old(
                frame_allocator,
            ).spec_available(),
        },
{
    let tables = match new_page_table(current, current_0, current_0_0, frame_allocator) {
        Some(t) => t,
        None => {
            return None;
        },
    };
    let ghost after_tables = *frame_allocator;
    let mut user_map = match map_stack(frame_allocator) {
        Ok(v) => v,
        Err(_) => {
            return None;
        },
    };
    let ghost stack = user_map@;
    user_map.push(
        Mapping {
            page: page_containing(USERSPACE_VIRT_BASE),
            frame: frame_containing(code),
            flags: USER_FLAGS,
        },
    );
    proof {
        assert(user_map@.subrange(0, STACK_PAGES as int) =~= stack);
        assert forall|k: int| 0 <= k < STACK_PAGES implies #[trigger] stack[k] == (Mapping {
            page: Seq::new(STACK_PAGES as nat, |k: int| spec_stack_page(k))[k],
            frame: old(frame_allocator).spec_frame(TABLE_FRAMES + k),
            flags: USER_FLAGS,
        }) by {
            assert(after_tables.spec_frame(0 + k) == old(frame_allocator).spec_frame(
                TABLE_FRAMES + k,
            ));
        }
    }
    Some((tables, user_map))
}

} // verus!
