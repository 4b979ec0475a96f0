//! The GDT of 32-bit protected mode: the TSS descriptor takes one slot.

use vstd::prelude::*;

use super::{
    flat, PrivilegeLevel, SegmentBitness, SegmentDescriptor, SegmentType, GDT_TSS, TSS_SIZE,
};
use super::encoding::{descriptor_bits_spec, tss_descriptor_bits};
use crate::memory::{lemma_first_stack_ready, lemma_next_stacks_ready, MemoryController};
use crate::paging::PAGE_SIZE;

verus! {

pub const GDT_SIZE: u16 = GDT_TSS + 1;

/// The task state segment of protected mode, with the stacks of privilege levels 0 to 2.
#[derive(Clone, Copy, PartialEq, Eq, Structural, Debug)]
pub struct TaskStateSegment {
    pub esp0: u32,
    pub esp1: u32,
    pub esp2: u32,
}

/// A TSS whose three privilege-level stacks are new one-page stacks (their tops cut to 32
/// bits); `None` when a stack could not be allocated.
pub fn tss(memory_controller: &mut MemoryController) -> (r: Option<TaskStateSegment>)
    requires
        old(memory_controller).wf(),
    ensures
        final(memory_controller).wf(),
        r matches Some(t) ==> {
            let start = old(memory_controller).stack_range().start.number;
            &&& t.esp0 as int == ((start + 2) * PAGE_SIZE) % 0x1_0000_0000
            &&& t.esp1 as int == ((start + 4) * PAGE_SIZE) % 0x1_0000_0000
            &&& t.esp2 as int == ((start + 6) * PAGE_SIZE) % 0x1_0000_0000
        },
        old(memory_controller).one_page_stacks_ready(3) ==> r is Some,
{
    let ghost ready = memory_controller.one_page_stacks_ready(3);
    let ghost m0 = *memory_controller;
    proof {
        if ready {
            lemma_first_stack_ready(memory_controller, 3);
        }
    }
    let esp0 = match memory_controller.alloc_stack(1) {
        Some(stack) => stack.top(),
        None => {
            return None;
        },
    };
    let ghost m1 = *memory_controller;
    proof {
        if ready {
            lemma_next_stacks_ready(&m0, memory_controller, 3);
            lemma_first_stack_ready(memory_controller, 2);
        }
    }
    let esp1 = match memory_controller.alloc_stack(1) {
        Some(stack) => stack.top(),
        None => {
            return None;
        },
    };
    proof {
        if ready {
            lemma_next_stacks_ready(&m1, memory_controller, 2);
            lemma_first_stack_ready(memory_controller, 1);
        }
    }
    let esp2 = match memory_controller.alloc_stack(1) {
        Some(stack) => stack.top(),
        None => {
            return None;
        },
    };
    assert(forall|x: u64| #[trigger] (x as u32) as int == x as int % 0x1_0000_0000) by (bit_vector);
    Some(TaskStateSegment { esp0: esp0 as u32, esp1: esp1 as u32, esp2: esp2 as u32 })
}

/// The descriptors of the GDT, slot by slot: null, kernel code, kernel data, user code,
/// user data and the TSS at address `tss_base`.
pub fn create_gdt(tss_base: u32) -> (r: Vec<SegmentDescriptor>)
    ensures
        r@ == seq![
            SegmentDescriptor::Null,
            flat(SegmentType::CodeRead, PrivilegeLevel::Ring0, SegmentBitness::Bits32),
            flat(SegmentType::DataWrite, PrivilegeLevel::Ring0, SegmentBitness::Bits32),
            flat(SegmentType::CodeRead, PrivilegeLevel::Ring3, SegmentBitness::Bits32),
            flat(SegmentType::DataWrite, PrivilegeLevel::Ring3, SegmentBitness::Bits32),
            SegmentDescriptor::Tss { base: tss_base as u64, limit: (TSS_SIZE - 1) as u64, privilege: PrivilegeLevel::Ring3 },
        ],
        descriptor_bits_spec(r@[GDT_TSS as int]) == Some(tss_descriptor_bits(tss_base as u64, (TSS_SIZE - 1) as u64, PrivilegeLevel::Ring3)),
{
    let mut gdt: Vec<SegmentDescriptor> = Vec::new();
    gdt.push(SegmentDescriptor::Null);
    // kernel code
    gdt.push(
        SegmentDescriptor::Memory {
            base: 0,
            limit: 0,
            segment_type: SegmentType::CodeRead,
            accessed: false,
            privilege: PrivilegeLevel::Ring0,
            bitness: SegmentBitness::Bits32,
        },
    );
    // kernel data
    gdt.push(
        SegmentDescriptor::Memory {
            base: 0,
            limit: 0,
            segment_type: SegmentType::DataWrite,
            accessed: false,
            privilege: PrivilegeLevel::Ring0,
            bitness: SegmentBitness::Bits32,
        },
    );
    // user code
    gdt.push(
        SegmentDescriptor::Memory {
            base: 0,
            limit: 0,
            segment_type: SegmentType::CodeRead,
            accessed: false,
            privilege: PrivilegeLevel::Ring3,
            bitness: SegmentBitness::Bits32,
        },
    );
    // user data
    gdt.push(
        SegmentDescriptor::Memory {
            base: 0,
            limit: 0,
            segment_type: SegmentType::DataWrite,
            accessed: false,
            privilege: PrivilegeLevel::Ring3,
            bitness: SegmentBitness::Bits32,
        },
    );
    gdt.push(SegmentDescriptor::Tss { base: tss_base as u64, limit: TSS_SIZE - 1, privilege: PrivilegeLevel::Ring3 });
    gdt
}

} // verus!
