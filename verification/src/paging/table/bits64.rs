//! The top of the four-level hierarchy and the recursive-mapping address of a next table.

use vstd::prelude::*;

use super::{HierarchicalLevel, Level2, TableLevel};

verus! {

/// Virtual address of the top-level table when its last entry maps the table itself.
pub const RECURSIVE_ENTRY: u64 = 0xffff_ffff_ffff_f000;

pub struct Level4;

pub struct Level3;

impl TableLevel for Level4 {

}

impl TableLevel for Level3 {

}

impl HierarchicalLevel for Level4 {
    type NextLevel = Level3;
}

impl HierarchicalLevel for Level3 {
    type NextLevel = Level2;
}

/// Under recursive mapping, the virtual address of the table that entry `index` of the
/// table at virtual address `address` points to.
pub fn get_address(address: u64, index: u64) -> (r: u64)
    ensures
        r == (address << 9u64) | (index << 12u64),
        address % 4096 == 0 && index < 512 ==> r as int == (address as int * 512 + index as int * 4096)
            % 0x1_0000_0000_0000_0000,
{
    let r = (address << 9u64) | (index << 12u64);
    proof {
        let s = address << 9u64;
        assert(address % 4096 == 0 && index < 512 ==> s & (index << 12u64) == 0 && s | (index << 12u64) == s + (index << 12u64) && index << 12u64 == index * 4096) by (bit_vector)
            requires
                s == address << 9u64,
        ;
        assert(s as int == (address as int * 512) % 0x1_0000_0000_0000_0000) by (bit_vector)
            requires
                s == address << 9u64,
        ;
    }
    r
}

} // verus!
