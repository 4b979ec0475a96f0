//! The GDT of 64-bit mode: the TSS descriptor takes two slots.

use vstd::prelude::*;

use super::{
    flat, PrivilegeLevel, SegmentBitness, SegmentDescriptor, SegmentType, GDT_TSS, TSS_SIZE,
};
use super::encoding::{descriptor_bits_spec, tss_descriptor_bits};
use crate::interrupts::DOUBLE_FAULT_IST_INDEX;
use crate::memory::{lemma_first_stack_ready, MemoryController};
use crate::paging::PAGE_SIZE;

verus! {

pub const GDT_SIZE: u16 = GDT_TSS + 2;

/// The task state segment of 64-bit mode: privilege-level stacks and the interrupt stack
/// table.
#[derive(Clone, Copy, Debug)]
pub struct TaskStateSegment {
    pub rsp: [u64; 3],
    pub ist: [u64; 7],
    pub iomap_base: u16,
}

impl TaskStateSegment {
    /// A segment with no stacks set.
    pub fn new() -> (r: TaskStateSegment)
        ensures
            forall|i: int| 0 <= i < 3 ==> #[trigger] r.rsp[i] == 0,
            forall|i: int| 0 <= i < 7 ==> #[trigger] r.ist[i] == 0,
            r.iomap_base == 0,
    {
        TaskStateSegment { rsp: [0, 0, 0], ist: [0, 0, 0, 0, 0, 0, 0], iomap_base: 0 }
    }
}

/// A TSS whose double-fault stack is a new one-page stack; `None` when no stack could be
/// allocated.
pub fn tss(memory_controller: &mut MemoryController) -> (r: Option<TaskStateSegment>)
    requires
        old(memory_controller).wf(),
    ensures
        final(memory_controller).wf(),
        r matches Some(t) ==> {
            &&& t.ist[DOUBLE_FAULT_IST_INDEX as int] == (old(memory_controller).stack_range().start.number
                + 2) * PAGE_SIZE
            &&& forall|i: int| 1 <= i < 7 ==> #[trigger] t.ist[i] == 0
            &&& forall|i: int| 0 <= i < 3 ==> #[trigger] t.rsp[i] == 0
            &&& t.iomap_base == 0
        },
        old(memory_controller).one_page_stacks_ready(1) ==> r is Some,
{
    proof {
        if memory_controller.one_page_stacks_ready(1) {
            lemma_first_stack_ready(memory_controller, 1);
        }
    }
    let mut tss = TaskStateSegment::new();
    let double_fault_stack = match memory_controller.alloc_stack(1) {
        Some(stack) => stack,
        None => {
            return None;
        },
    };
    tss.ist[DOUBLE_FAULT_IST_INDEX] = double_fault_stack.top();
    Some(tss)
}

/// The descriptors of the GDT, slot by slot: null, kernel code, kernel data, the two user
/// segments, and the two halves of the descriptor of the TSS at address `tss_base`.
pub fn create_gdt(tss_base: u64) -> (r: Vec<SegmentDescriptor>)
    ensures
        r@ == seq![
            SegmentDescriptor::Null,
            flat(SegmentType::CodeRead, PrivilegeLevel::Ring0, SegmentBitness::Bits64),
            flat(SegmentType::DataWrite, PrivilegeLevel::Ring0, SegmentBitness::Bits64),
            flat(SegmentType::CodeRead, PrivilegeLevel::Ring3, SegmentBitness::Bits64),
            flat(SegmentType::DataWrite, PrivilegeLevel::Ring3, SegmentBitness::Bits64),
            SegmentDescriptor::Tss { base: tss_base, limit: (TSS_SIZE - 1) as u64, privilege: PrivilegeLevel::Ring3 },
            SegmentDescriptor::TssUpper { base: tss_base },
        ],
        descriptor_bits_spec(r@[GDT_TSS as int]) == Some(tss_descriptor_bits(tss_base, (TSS_SIZE - 1) as u64, PrivilegeLevel::Ring3)),
        descriptor_bits_spec(r@[GDT_TSS + 1]) == Some(tss_base >> 32u64),
{
    let mut gdt: Vec<SegmentDescriptor> = Vec::new();
    gdt.push(SegmentDescriptor::Null);
    // kernel code
    gdt.push(
        SegmentDescriptor::Memory {
            base: 0,
            limit: 0,
            segment_type: SegmentType::CodeRead,
            accessed: false,
            privilege: PrivilegeLevel::Ring0,
            bitness: SegmentBitness::Bits64,
        },
    );
    // kernel data
    gdt.push(
        SegmentDescriptor::Memory {
            base: 0,
            limit: 0,
            segment_type: SegmentType::DataWrite,
            accessed: false,
            privilege: PrivilegeLevel::Ring0,
            bitness: SegmentBitness::Bits64,
        },
    );
    // user code
    gdt.push(
        SegmentDescriptor::Memory {
            base: 0,
            limit: 0,
            segment_type: SegmentType::CodeRead,
            accessed: false,
            privilege: PrivilegeLevel::Ring3,
            bitness: SegmentBitness::Bits64,
        },
    );
    // user data
    gdt.push(
        SegmentDescriptor::Memory {
            base: 0,
            limit: 0,
            segment_type: SegmentType::DataWrite,
            accessed: false,
            privilege: PrivilegeLevel::Ring3,
            bitness: SegmentBitness::Bits64,
        },
    );
    // TSS
    gdt.push(SegmentDescriptor::Tss { base: tss_base, limit: TSS_SIZE - 1, privilege: PrivilegeLevel::Ring3 });
    gdt.push(SegmentDescriptor::TssUpper { base: tss_base });
    gdt
}

} // verus!
