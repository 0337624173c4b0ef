//! The system call that ends the calling process.
use vstd::prelude::*;
use crate::process::{Activation, ProcessState};
use crate::syscall::delete_syscall_stack;
use crate::threading::scheduler::Scheduler;

verus! {

/// Ends the calling process: the kernel stack of the call is given up, the
/// current task is done, and the next ready task takes over.
///
/// Returns the address at which the kernel stack was allocated, to be freed, and
/// what it takes to run the task that takes over; `None` for the one where the
/// stack's top is no top of a stack, for the other where no task is ready.
pub fn exit(
    scheduler: &mut Scheduler,
    exit_code: u64,
    stack_addr: u64,
    registers: ProcessState,
    user_cs: u16,
    user_ds: u16,
) -> (r: (Option<u64>, Option<Activation>))
    requires
        old(scheduler).wf(),
    ensures
        final(scheduler).wf(),
        final(scheduler).model() == old(scheduler).model().spec_end_current_task(registers),
        r.0 == if stack_addr >= crate::syscall::STACK_SIZE {
            Some((stack_addr - crate::syscall::STACK_SIZE) as u64)
        } else {
            None
        },
        r.1 == final(scheduler).model().spec_activation(user_cs, user_ds),
{
    let stack = delete_syscall_stack(stack_addr);
    let next = scheduler.end_current_task(registers, user_cs, user_ds);
    (stack, next)
}

} // verus!
