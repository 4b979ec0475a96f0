//! The register state a task is switched out of and back into. The switch itself is done
//! by the caller.

use vstd::prelude::*;

pub mod bits32;
pub mod bits64;
pub mod x86_64;

verus! {

/// The callee-saved registers, the flags, the stack pointer and the page table of a task.
#[derive(Clone, Copy, PartialEq, Eq, Structural, Debug)]
pub struct Context {
    pub cr3: u64,
    pub reg_flags: u64,
    pub reg_bx: u64,
    pub reg_12: u64,
    pub reg_13: u64,
    pub reg_14: u64,
    pub reg_15: u64,
    pub reg_bp: u64,
    pub reg_sp: u64,
}

impl Context {
    /// A context with every register zero.
    pub fn new() -> (r: Context)
        ensures
            r == (Context {
                cr3: 0,
                reg_flags: 0,
                reg_bx: 0,
                reg_12: 0,
                reg_13: 0,
                reg_14: 0,
                reg_15: 0,
                reg_bp: 0,
                reg_sp: 0,
            }),
    {
        Context {
            cr3: 0,
            reg_flags: 0,
            reg_bx: 0,
            reg_12: 0,
            reg_13: 0,
            reg_14: 0,
            reg_15: 0,
            reg_bp: 0,
            reg_sp: 0,
        }
    }

    /// Sets the physical address of the task's top-level page table.
    pub fn set_page_table(&mut self, address: u64)
        ensures
            *final(self) == (Context { cr3: address, ..*old(self) }),
    {
        self.cr3 = address;
    }

    /// Sets the task's stack pointer.
    pub fn set_stack(&mut self, address: u64)
        ensures
            *final(self) == (Context { reg_sp: address, ..*old(self) }),
    {
        self.reg_sp = address;
    }
}

} // verus!
