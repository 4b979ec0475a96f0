//! The recursive-mapping address of a next table in the two-level (32-bit) layout.

use vstd::prelude::*;

verus! {

/// Virtual address of the page directory when its last entry maps the directory itself.
pub const RECURSIVE_ENTRY: u32 = 0xffff_f000;

/// Under recursive mapping, the virtual address of the table that entry `index` of the
/// table at virtual address `address` points to.
pub fn get_address(address: u32, index: u32) -> (r: u32)
    ensures
        r == (address << 10u32) | (index << 12u32),
        address % 4096 == 0 && index < 1024 ==> r as int == (address as int * 1024 + index as int * 4096)
            % 0x1_0000_0000,
{
    let r = (address << 10u32) | (index << 12u32);
    proof {
        let s = address << 10u32;
        assert(address % 4096 == 0 && index < 1024 ==> s & (index << 12u32) == 0 && s | (index << 12u32) == s + (index << 12u32) && index << 12u32 == index * 4096) by (bit_vector)
            requires
                s == address << 10u32,
        ;
        assert(s as int == (address as int * 1024) % 0x1_0000_0000) by (bit_vector)
            requires
                s == address << 10u32,
        ;
    }
    r
}

} // verus!
