//! The global descriptor table: which segment descriptor stands in which slot, and the
//! task state segments with their stacks. The bits of the memory descriptors come from
//! `encoding`; the caller encodes the TSS descriptor (it holds the address of the TSS) and
//! loads the table.

use vstd::prelude::*;

pub mod bits32;
pub mod bits64;
pub mod encoding;
pub mod x86_64;

verus! {

// Segment selector indices
pub const GDT_KERNEL_CODE: u16 = 1;

pub const GDT_KERNEL_DATA: u16 = 2;

pub const GDT_USER_CODE: u16 = 3;

pub const GDT_USER_DATA: u16 = 4;

pub const GDT_TSS: u16 = 5;

/// The size in bytes of a task state segment as the processor reads it (32-bit and 64-bit
/// alike); a TSS descriptor's limit is one less.
pub const TSS_SIZE: u64 = 104;

/// The four privilege levels, from the most privileged.
#[derive(Clone, Copy, PartialEq, Eq, Structural, Debug)]
pub enum PrivilegeLevel {
    Ring0,
    Ring1,
    Ring2,
    Ring3,
}

impl PrivilegeLevel {
    pub open spec fn level_spec(self) -> u16 {
        match self {
            PrivilegeLevel::Ring0 => 0,
            PrivilegeLevel::Ring1 => 1,
            PrivilegeLevel::Ring2 => 2,
            PrivilegeLevel::Ring3 => 3,
        }
    }

    pub fn level(self) -> (r: u16)
        ensures
            r == self.level_spec(),
            r < 4,
    {
        match self {
            PrivilegeLevel::Ring0 => 0,
            PrivilegeLevel::Ring1 => 1,
            PrivilegeLevel::Ring2 => 2,
            PrivilegeLevel::Ring3 => 3,
        }
    }
}

/// A selector of a descriptor of the GDT: its index and the requested privilege level.
#[derive(Clone, Copy, PartialEq, Eq, Structural, Debug)]
pub struct SegmentSelector {
    pub bits: u16,
}

impl SegmentSelector {
    /// The index shifted into place (its top three bits fall off) with the level in the
    /// low bits.
    pub fn new(index: u16, rpl: PrivilegeLevel) -> (r: SegmentSelector)
        ensures
            r.bits == (index << 3u16) | rpl.level_spec(),
            index < 8192 ==> r.bits == index * 8 + rpl.level_spec(),
    {
        let level = rpl.level();
        assert(index < 8192 ==> (index << 3u16) | level == index * 8 + level) by (bit_vector)
            requires
                level < 4,
        ;
        SegmentSelector { bits: (index << 3u16) | level }
    }

    /// The index of the descriptor the selector points to.
    pub fn index(&self) -> (r: u16)
        ensures
            r == self.bits / 8,
    {
        let bits = self.bits;
        assert(bits >> 3u16 == bits / 8) by (bit_vector);
        bits >> 3u16
    }
}

/// The index of a selector is the index it was made with.
pub proof fn lemma_selector_index(index: u16, rpl: PrivilegeLevel)
    requires
        index < 8192,
    ensures
        (index * 8 + rpl.level_spec()) / 8 == index,
{
}

/// What a code or data segment allows.
#[derive(Clone, Copy, PartialEq, Eq, Structural, Debug)]
pub enum SegmentType {
    /// code that may be read as well as executed
    CodeRead,
    /// data that may be written as well as read
    DataWrite,
}

/// Whether a code segment holds 32-bit or 64-bit code.
#[derive(Clone, Copy, PartialEq, Eq, Structural, Debug)]
pub enum SegmentBitness {
    Bits32,
    Bits64,
}

/// One descriptor of the GDT, by what it describes.
#[derive(Clone, Copy, PartialEq, Eq, Structural, Debug)]
pub enum SegmentDescriptor {
    /// the unused first descriptor
    Null,
    /// a flat code or data segment
    Memory {
        base: u32,
        limit: u32,
        segment_type: SegmentType,
        accessed: bool,
        privilege: PrivilegeLevel,
        bitness: SegmentBitness,
    },
    /// the task state segment at address `base` whose last byte is at `base + limit` (in
    /// 64-bit mode, the lower half of its descriptor)
    Tss { base: u64, limit: u64, privilege: PrivilegeLevel },
    /// the upper half of a 64-bit task state segment descriptor: the top half of the address
    TssUpper { base: u64 },
}

/// A flat segment (base 0, limit 0) of the given type, privilege and bitness.
pub open spec fn flat(
    segment_type: SegmentType,
    privilege: PrivilegeLevel,
    bitness: SegmentBitness,
) -> SegmentDescriptor {
    SegmentDescriptor::Memory {
        base: 0,
        limit: 0,
        segment_type,
        accessed: false,
        privilege,
        bitness,
    }
}

} // verus!
