//! The context of a new task: its first switch returns into the task's entry point, and the
//! entry point returns into the routine that ends the task.

use vstd::prelude::*;

verus! {

/// The interrupt flag of RFLAGS.
pub const INTERRUPT_FLAG: u64 = 0x200;

/// The size of one stack slot.
pub const WORD_SIZE: u64 = 8;

/// Store `value` at address `address`.
#[derive(Clone, Copy, PartialEq, Eq, Structural, Debug)]
pub struct StackWrite {
    pub address: u64,
    pub value: u64,
}

#[derive(Clone, Copy, PartialEq, Eq, Structural, Debug)]
pub struct Context {
    pub rflags: u64,
    pub rbx: u64,
    pub r12: u64,
    pub r13: u64,
    pub r14: u64,
    pub r15: u64,
    pub rbp: u64,
    pub rsp: u64,
}

impl Context {
    /// A context with every register zero.
    pub fn empty() -> (r: Context)
        ensures
            r == (Context { rflags: 0, rbx: 0, r12: 0, r13: 0, r14: 0, r15: 0, rbp: 0, rsp: 0 }),
    {
        Context { rflags: 0, rbx: 0, r12: 0, r13: 0, r14: 0, r15: 0, rbp: 0, rsp: 0 }
    }

    /// The context of a task whose stack ends at `stack_top`: interrupts enabled, and on the
    /// stack the address of `process_ret` under the address of `proc_entry`. Returns the
    /// two stores that put them there.
    pub fn new(stack_top: u64, proc_entry: u64, process_ret: u64) -> (r: (Context, Vec<StackWrite>))
        requires
            stack_top >= 2 * WORD_SIZE,
        ensures
            r.0 == (Context {
                rflags: INTERRUPT_FLAG,
                rbx: 0,
                r12: 0,
                r13: 0,
                r14: 0,
                r15: 0,
                rbp: stack_top,
                rsp: (stack_top - 2 * WORD_SIZE) as u64,
            }),
            r.1@ == seq![
                StackWrite { address: (stack_top - WORD_SIZE) as u64, value: process_ret },
                StackWrite { address: (stack_top - 2 * WORD_SIZE) as u64, value: proc_entry },
            ],
    {
        let mut ctx = Context {
            rflags: INTERRUPT_FLAG,
            rbx: 0,
            r12: 0,
            r13: 0,
            r14: 0,
            r15: 0,
            rbp: stack_top,
            rsp: stack_top,
        };
        let mut writes: Vec<StackWrite> = Vec::new();
        writes.push(ctx.push_stack(process_ret));
        writes.push(ctx.push_stack(proc_entry));
        (ctx, writes)
    }

    /// Makes room for `item` on the stack; returns the store that puts it there.
    pub fn push_stack(&mut self, item: u64) -> (r: StackWrite)
        requires
            old(self).rsp >= WORD_SIZE,
        ensures
            *final(self) == (Context { rsp: (old(self).rsp - WORD_SIZE) as u64, ..*old(self) }),
            r == (StackWrite { address: (old(self).rsp - WORD_SIZE) as u64, value: item }),
    {
        self.rsp = self.rsp - WORD_SIZE;
        StackWrite { address: self.rsp, value: item }
    }
}

} // verus!
