//! System calls: the registers that switch them on, the kernel stack of a call,
//! and the dispatch of a call by its number.
use vstd::prelude::*;
use crate::gdt::Selectors;

pub mod display;
pub mod process;

verus! {

/// The register that holds the system-call-enable bit.
pub const MSR_SCE: u32 = 0xC0000080;

/// The register that holds the segment selectors for system calls.
pub const IA32_STAR: u32 = 0xC0000081;

/// The register that holds the address of the system call handler.
pub const IA32_LSTAR: u32 = 0xC0000082;

/// The register that holds the flags to clear on a system call.
pub const IA32_FMASK: u32 = 0xC0000084;

/// Bytes in the kernel stack of a system call.
pub const STACK_SIZE: u64 = 0x1000;

/// Alignment of the kernel stack of a system call.
pub const STACK_ALIGN: u64 = 0x8;

/// The flags that a system call clears: the interrupt flag.
pub const FMASK_VALUE: u64 = 0x200;

/// The value of the selector register for the selectors of the kernel's table:
/// kernel code at 0x08 in bits 32 to 47, and 0x23 in bits 48 to 63, from which
/// user data is at 0x2B and user code at 0x33.
pub const STAR_VALUE: u64 = 0x23000800000000;

/// The number of the call that writes text to the screen.
pub const SYS_PRINT_VGA_TEXT: u64 = 0;

/// The number of the call that ends the calling process.
pub const SYS_EXIT: u64 = 1;

/// A write to a model-specific register.
#[derive(Debug, Clone, Copy, PartialEq, Eq, Structural)]
pub struct MsrWrite {
    pub register: u32,
    pub value: u64,
}

/// Whether the selectors lie in the table as the system call and its return
/// take them: the kernel's data segment right behind its code segment, and the
/// user's code segment right behind the user's data segment.
pub open spec fn spec_star_fits(selectors: Selectors) -> bool {
    &&& selectors.data_selector == selectors.code_selector + 8
    &&& selectors.user_data_selector >= 8
    &&& selectors.user_code_selector == selectors.user_data_selector + 8
}

/// The value of the selector register for the selectors: the kernel's code
/// selector in bits 32 to 47, and in bits 48 to 63 the selector eight below the
/// user's data selector, from which the return adds 8 for the stack segment and
/// 16 for the code segment.
pub open spec fn spec_star(selectors: Selectors) -> int {
    (selectors.user_data_selector - 8) * 0x1_0000_0000_0000 + selectors.code_selector
        * 0x1_0000_0000
}

/// The value of the selector register for the selectors; `None` exactly when
/// they do not lie in the table as the system call and its return take them.
pub fn star_value(selectors: &Selectors) -> (r: Option<u64>)
    ensures
        r == if spec_star_fits(*selectors) {
            Some(spec_star(*selectors) as u64)
        } else {
            None
        },
        *selectors == Selectors::spec_layout() ==> r == Some(STAR_VALUE),
{
    if selectors.code_selector > u16::MAX - 8 || selectors.data_selector != selectors.code_selector
        + 8 {
        return None;
    }
    if selectors.user_data_selector < 8 || selectors.user_data_selector > u16::MAX - 8
        || selectors.user_code_selector != selectors.user_data_selector + 8 {
        return None;
    }
    let base = (selectors.user_data_selector - 8) as u64;
    Some(base * 0x1_0000_0000_0000 + (selectors.code_selector as u64) * 0x1_0000_0000)
}

/// The writes that switch system calls on, in their order: the enable bit set in
/// what the enable register holds, the interrupt flag as the flag to clear, the
/// handler's address, and the selectors. `None` exactly when the selectors do
/// not lie in the table as the system call and its return take them.
pub fn init(sce: u64, handler_addr: u64, selectors: &Selectors) -> (r: Option<[MsrWrite; 4]>)
    ensures
        r is Some <==> spec_star_fits(*selectors),
        r is Some ==> r.unwrap()@ == seq![
            MsrWrite { register: MSR_SCE, value: sce | 1 },
            MsrWrite { register: IA32_FMASK, value: FMASK_VALUE },
            MsrWrite { register: IA32_LSTAR, value: handler_addr },
            MsrWrite { register: IA32_STAR, value: spec_star(*selectors) as u64 },
        ],
{
    let star = match star_value(selectors) {
        Some(star) => star,
        None => {
            return None;
        },
    };
    let r = [
        MsrWrite { register: MSR_SCE, value: sce | 1 },
        MsrWrite { register: IA32_FMASK, value: FMASK_VALUE },
        MsrWrite { register: IA32_LSTAR, value: handler_addr },
        MsrWrite { register: IA32_STAR, value: star },
    ];
    assert(r@ =~= seq![
        MsrWrite { register: MSR_SCE, value: sce | 1 },
        MsrWrite { register: IA32_FMASK, value: FMASK_VALUE },
        MsrWrite { register: IA32_LSTAR, value: handler_addr },
        MsrWrite { register: IA32_STAR, value: spec_star(*selectors) as u64 },
    ]);
    Some(r)
}

/// The top of the kernel stack that was allocated at `stack`: the address behind
/// its last byte. `None` where that is above the address space.
pub fn setup_syscall_stack(stack: u64) -> (r: Option<u64>)
    ensures
        r == if stack + STACK_SIZE <= u64::MAX {
            Some((stack + STACK_SIZE) as u64)
        } else {
            None
        },
{
    stack.checked_add(STACK_SIZE)
}

/// The address at which the kernel stack with the top `stack_end` was allocated.
/// `None` where no stack has that top.
pub fn delete_syscall_stack(stack_end: u64) -> (r: Option<u64>)
    ensures
        r == if stack_end >= STACK_SIZE {
            Some((stack_end - STACK_SIZE) as u64)
        } else {
            None
        },
{
    stack_end.checked_sub(STACK_SIZE)
}

/// A system call, by its number and the arguments it takes.
#[derive(Debug, Clone, Copy, PartialEq, Eq, Structural)]
pub enum Syscall {
    /// Write the `length` bytes of text at `text_addr` to the screen.
    PrintVgaText { text_addr: u64, length: u64 },
    /// End the calling process.
    Exit { exit_code: u64 },
    /// A number that stands for no call.
    Unknown { syscall_id: u64 },
}

/// The system call that the registers of a call ask for.
pub open spec fn spec_syscall(syscall_id: u64, arg0: u64, arg1: u64) -> Syscall {
    if syscall_id == SYS_PRINT_VGA_TEXT {
        Syscall::PrintVgaText { text_addr: arg0, length: arg1 }
    } else if syscall_id == SYS_EXIT {
        Syscall::Exit { exit_code: arg0 }
    } else {
        Syscall::Unknown { syscall_id }
    }
}

/// Tells which system call the registers of a call ask for.
pub fn syscall_handler(syscall_id: u64, arg0: u64, arg1: u64, arg2: u64, arg3: u64) -> (r: Syscall)
    ensures
        r == spec_syscall(syscall_id, arg0, arg1),
{
    if syscall_id == SYS_PRINT_VGA_TEXT {
        Syscall::PrintVgaText { text_addr: arg0, length: arg1 }
    } else if syscall_id == SYS_EXIT {
        Syscall::Exit { exit_code: arg0 }
    } else {
        Syscall::Unknown { syscall_id }
    }
}

/// The result of a call with a number that stands for no call: 0.
pub fn default_syscall(syscall_id: u64) -> (r: i64)
    ensures
        r == 0,
{
    0
}

} // verus!
