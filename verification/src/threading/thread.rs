//! Kernel threads.
use vstd::prelude::*;

verus! {

/// Bytes in the stack of a thread.
pub const STACK_SIZE: usize = 1024 * 16;

/// What a thread is doing.
#[derive(Debug, Clone, Copy, PartialEq, Eq, Structural)]
pub enum State {
    READY,
}

/// A thread: the code it runs, its stack and its state.
pub struct Thread<T> {
    pub code: T,
    pub stack: Vec<u8>,
    pub state: State,
}

impl<T> Thread<T> {
    /// A thread that has the given code and a stack of zeros, ready to run.
    pub fn new(code: T) -> (r: Self)
        ensures
            r.code == code,
            r.state == State::READY,
            r.stack@ == Seq::new(STACK_SIZE as nat, |i: int| 0u8),
    {
        let mut stack: Vec<u8> = Vec::new();
        let mut i: usize = 0;
        while i < STACK_SIZE
            invariant
                i <= STACK_SIZE,
                stack@ == Seq::new(i as nat, |j: int| 0u8),
            decreases STACK_SIZE - i,
        {
            stack.push(0);
            i += 1;
            assert(stack@ =~= Seq::new(i as nat, |j: int| 0u8));
        }
        Thread { code, stack, state: State::READY }
    }

    /// Runs the thread. Threads are not run yet: nothing changes.
    pub fn run(&mut self)
        ensures
            *final(self) == *old(self),
    {
    }
}

} // verus!
