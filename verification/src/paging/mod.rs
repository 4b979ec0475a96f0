//! Four-level (x86_64) paging over a model of the physical frames that hold page tables.

use vstd::prelude::*;

pub mod active;
pub mod directory;
pub mod entry;
pub mod mapper;
pub mod page;
pub mod page32;
pub mod physical;
pub mod table;

verus! {

pub const PAGE_SIZE: u64 = 4096;

pub const ENTRY_COUNT: u64 = 512;

/// The bits of an entry that hold the physical address of a frame.
pub const PHYS_ADDR_MASK: u64 = 0x000f_ffff_ffff_f000;

/// Frame numbers below this bound have addresses that fit `PHYS_ADDR_MASK`.
pub const MAX_FRAME_NUMBER: u64 = 0x100_0000_0000;

pub type PhysicalAddress = u64;

pub type VirtualAddress = u64;

} // verus!
