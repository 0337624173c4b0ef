//! Core logic of a small x86_64 kernel, stated over plain values and verified.
//!
//! Every module works on bytes, integers and the library's own types; the code
//! that touches the machine (ports, MMIO, control registers, the stack) hands
//! those values in and carries the results out.
use vstd::prelude::*;

pub mod acpi;
pub mod allocator;
pub mod bytes;
pub mod disk;
pub mod display;
pub mod elf;
pub mod fs;
pub mod gdt;
pub mod interrupts;
pub mod memory;
pub mod paging;
pub mod pci;
pub mod process;
pub mod syscall;
pub mod threading;

verus! {

/// Exit status written to the emulator's debug-exit port.
#[derive(Debug, Clone, Copy, PartialEq, Eq, Structural)]
pub enum QemuExitCode {
    Success,
    Failed,
}

impl QemuExitCode {
    /// The 32-bit value that is written to the exit port for this status.
    pub open spec fn spec_code(self) -> u32 {
        match self {
            QemuExitCode::Success => 0x10,
            QemuExitCode::Failed => 0x11,
        }
    }

    /// The 32-bit value that is written to the exit port for this status.
    pub fn code(self) -> (r: u32)
        ensures
            r == self.spec_code(),
    {
        match self {
            QemuExitCode::Success => 0x10,
            QemuExitCode::Failed => 0x11,
        }
    }
}

} // verus!
