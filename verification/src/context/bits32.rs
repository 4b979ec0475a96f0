//! The task context of 32-bit protected mode.

use vstd::prelude::*;

verus! {

#[derive(Clone, Copy, PartialEq, Eq, Structural, Debug)]
pub struct Context {
    pub cr3: u32,
    pub reg_bp: u32,
    pub reg_flags: u32,
    pub reg_sp: u32,
    pub ebx: u32,
    pub edi: u32,
    pub esi: u32,
}

impl Context {
    /// A context with every register zero.
    pub fn new() -> (r: Context)
        ensures
            r == (Context { cr3: 0, reg_bp: 0, reg_flags: 0, reg_sp: 0, ebx: 0, edi: 0, esi: 0 }),
    {
        Context { cr3: 0, reg_flags: 0, ebx: 0, edi: 0, esi: 0, reg_bp: 0, reg_sp: 0 }
    }
}

} // verus!
