//! Interrupts: the vectors of the hardware interrupts, the timer's divisor, and
//! what is done about each exception.
use vstd::prelude::*;

verus! {

/// The vector of the first interrupt of the first interrupt controller.
pub const PIC_1_OFFSET: u8 = 32;

/// The vector of the first interrupt of the second interrupt controller.
pub const PIC_2_OFFSET: u8 = 40;

/// Timer interrupts in a second.
pub const TIMER_FREQUENCY: u32 = 1073;

/// Oscillations of the timer's clock in a second.
pub const TIMER_FREQUENCY_BASE: u32 = 1193182;

/// The port of the timer's channel 0.
pub const TIMER_PORT: u16 = 0x40;

/// The port of the keyboard's data.
pub const KEYBOARD_PORT: u16 = 0x60;

/// The hardware interrupts that are handled.
#[derive(Debug, Clone, Copy, PartialEq, Eq, Structural)]
pub enum InterruptIndex {
    Timer,
    Keyboard,
}

impl InterruptIndex {
    /// The vector of the interrupt.
    pub open spec fn spec_vector(self) -> u8 {
        match self {
            InterruptIndex::Timer => PIC_1_OFFSET,
            InterruptIndex::Keyboard => (PIC_1_OFFSET + 1) as u8,
        }
    }

    /// The vector of the interrupt.
    pub fn as_u8(self) -> (r: u8)
        ensures
            r == self.spec_vector(),
    {
        match self {
            InterruptIndex::Timer => PIC_1_OFFSET,
            InterruptIndex::Keyboard => PIC_1_OFFSET + 1,
        }
    }

    /// The vector of the interrupt, as an index into the table of handlers.
    pub fn as_usize(self) -> (r: usize)
        ensures
            r == self.spec_vector(),
    {
        self.as_u8() as usize
    }
}

/// The divisor that makes the timer tick `TIMER_FREQUENCY` times a second: the
/// clock's frequency over the frequency wanted, rounded down.
pub fn timer_divisor() -> (r: u32)
    ensures
        r == TIMER_FREQUENCY_BASE / TIMER_FREQUENCY,
        r == 1112,
{
    TIMER_FREQUENCY_BASE / TIMER_FREQUENCY
}

/// The exceptions of the processor that have a handler.
#[derive(Debug, Clone, Copy, PartialEq, Eq, Structural)]
pub enum Exception {
    Breakpoint,
    InvalidOpcode,
    DoubleFault,
    InvalidTss,
    SegmentNotPresent,
    StackSegmentFault,
    GeneralProtectionFault,
    PageFault,
    AlignmentCheck,
}

/// What is done about an exception.
#[derive(Debug, Clone, Copy, PartialEq, Eq, Structural)]
pub enum Handling {
    /// The stack frame is reported, and the interrupted code goes on.
    Report,
    /// The error code and the stack frame are reported, and the interrupted code
    /// goes on.
    ReportWithCode,
    /// The faulting address, the error code and the stack frame are reported, and
    /// the processor halts.
    ReportAndHalt,
    /// The kernel panics.
    Panic,
}

impl Exception {
    /// The vector of the exception.
    pub open spec fn spec_vector(self) -> u8 {
        match self {
            Exception::Breakpoint => 3,
            Exception::InvalidOpcode => 6,
            Exception::DoubleFault => 8,
            Exception::InvalidTss => 10,
            Exception::SegmentNotPresent => 11,
            Exception::StackSegmentFault => 12,
            Exception::GeneralProtectionFault => 13,
            Exception::PageFault => 14,
            Exception::AlignmentCheck => 17,
        }
    }

    /// What is done about the exception.
    pub open spec fn spec_handling(self) -> Handling {
        match self {
            Exception::Breakpoint => Handling::Report,
            Exception::InvalidOpcode => Handling::Report,
            Exception::DoubleFault => Handling::Panic,
            Exception::PageFault => Handling::ReportAndHalt,
            _ => Handling::ReportWithCode,
        }
    }

    /// The vector of the exception.
    pub fn vector(self) -> (r: u8)
        ensures
            r == self.spec_vector(),
            r < PIC_1_OFFSET,
    {
        match self {
            Exception::Breakpoint => 3,
            Exception::InvalidOpcode => 6,
            Exception::DoubleFault => 8,
            Exception::InvalidTss => 10,
            Exception::SegmentNotPresent => 11,
            Exception::StackSegmentFault => 12,
            Exception::GeneralProtectionFault => 13,
            Exception::PageFault => 14,
            Exception::AlignmentCheck => 17,
        }
    }

    /// What is done about the exception.
    pub fn handling(self) -> (r: Handling)
        ensures
            r == self.spec_handling(),
    {
        match self {
            Exception::Breakpoint => Handling::Report,
            Exception::InvalidOpcode => Handling::Report,
            Exception::DoubleFault => Handling::Panic,
            Exception::PageFault => Handling::ReportAndHalt,
            _ => Handling::ReportWithCode,
        }
    }

    /// The interrupt stack that the handler runs on, where it has one of its own:
    /// the double fault's.
    pub fn stack_index(self) -> (r: Option<u16>)
        ensures
            r == if self == Exception::DoubleFault {
                Some(crate::gdt::DOUBLE_FAULT_IST_INDEX)
            } else {
                None
            },
    {
        match self {
            Exception::DoubleFault => Some(crate::gdt::DOUBLE_FAULT_IST_INDEX),
            _ => None,
        }
    }
}

} // verus!
