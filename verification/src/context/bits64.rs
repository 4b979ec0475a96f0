//! The task context of 64-bit mode, in the layout the switch routine reads.

use vstd::prelude::*;

verus! {

#[derive(Clone, Copy, PartialEq, Eq, Structural, Debug)]
pub struct Context {
    pub reg_flags: u64,
    pub cr3: u64,
    pub rbx: u64,
    pub r12: u64,
    pub r13: u64,
    pub r14: u64,
    pub r15: u64,
    pub reg_bp: u64,
    pub reg_sp: u64,
}

impl Context {
    /// A context with every register zero.
    pub fn new() -> (r: Context)
        ensures
            r == (Context {
                reg_flags: 0,
                cr3: 0,
                rbx: 0,
                r12: 0,
                r13: 0,
                r14: 0,
                r15: 0,
                reg_bp: 0,
                reg_sp: 0,
            }),
    {
        Context {
            reg_flags: 0,
            cr3: 0,
            rbx: 0,
            r12: 0,
            r13: 0,
            r14: 0,
            r15: 0,
            reg_bp: 0,
            reg_sp: 0,
        }
    }
}

} // verus!
