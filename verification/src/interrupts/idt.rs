//! Gate descriptors of the interrupt descriptor table.

use vstd::prelude::*;

use crate::gdt::{PrivilegeLevel, SegmentSelector};
use crate::interrupts::exception::{vector_of, Exception};
use crate::interrupts::DOUBLE_FAULT_IST_INDEX;

verus! {

/// Descriptor flag: present.
pub const FLAGS_PRESENT: u8 = 0x80;

/// Descriptor type: a native (64-bit) interrupt gate.
pub const FLAGS_TYPE_SYS_NATIVE_INTERRUPT_GATE: u8 = 0x0E;

/// The selector of the kernel code segment.
pub const KERNEL_CODE_SELECTOR: u16 = 0x8;

/// A gate of the 64-bit interrupt descriptor table.
#[derive(Clone, Copy, PartialEq, Eq, Structural, Debug)]
pub struct IdtEntry {
    /// bits 0 to 15 of the handler's address
    pub base_lo: u16,
    /// the code segment the handler runs in
    pub selector: u16,
    /// the interrupt stack table entry to switch to, 0 for none
    pub ist_index: u8,
    /// present bit, privilege level and gate type
    pub flags: u8,
    /// bits 16 to 63 of the handler's address
    pub base_hi: u64,
}

/// The flags of a present interrupt gate callable from `privilege`.
pub open spec fn gate_flags(privilege: PrivilegeLevel) -> u8 {
    (0x8E + privilege.level_spec() * 32) as u8
}

/// A gate to the handler at `handler` in code segment `selector`.
pub open spec fn gate(handler: u64, selector: u16, privilege: PrivilegeLevel, ist_index: u8) -> IdtEntry {
    IdtEntry {
        base_lo: (handler % 0x1_0000) as u16,
        selector,
        ist_index,
        flags: gate_flags(privilege),
        base_hi: handler / 0x1_0000,
    }
}

impl IdtEntry {
    /// An entry for a vector without handler.
    pub fn missing() -> (r: IdtEntry)
        ensures
            r == (IdtEntry { base_lo: 0, selector: 0, ist_index: 0, flags: 0, base_hi: 0 }),
    {
        IdtEntry { base_lo: 0, selector: 0, ist_index: 0, flags: 0, base_hi: 0 }
    }
}

fn gate_entry(handler: u64, selector: u16, privilege: PrivilegeLevel, ist_index: u8) -> (r: IdtEntry)
    ensures
        r == gate(handler, selector, privilege, ist_index),
{
    let level = privilege.level() as u8;
    let flags = FLAGS_PRESENT | FLAGS_TYPE_SYS_NATIVE_INTERRUPT_GATE | (level << 5u8);
    assert(0x80u8 | 0x0Eu8 | (level << 5u8) == 0x8E + level * 32) by (bit_vector)
        requires
            level < 4,
    ;
    assert((handler & 0xFFFFu64) as u16 == (handler % 0x1_0000) as u16 && handler >> 16u64 == handler
        / 0x1_0000) by (bit_vector);
    IdtEntry {
        base_lo: (handler & 0xFFFF) as u16,
        selector,
        ist_index,
        flags,
        base_hi: handler >> 16u64,
    }
}

/// Points `entry` at the handler at address `handler`, run in the code segment
/// `code_selector` at privilege level 0.
pub fn set_handler_fn(entry: &mut IdtEntry, handler: u64, code_selector: SegmentSelector)
    ensures
        *final(entry) == gate(handler, code_selector.bits, PrivilegeLevel::Ring0, old(entry).ist_index),
{
    let new_entry = gate_entry(handler, code_selector.bits, PrivilegeLevel::Ring0, entry.ist_index);
    *entry = new_entry;
}

/// Points `entry` at the double-fault handler at `handler`, run on the stack of interrupt
/// stack table entry `index`.
pub fn set_double_fault_handler_fn(
    entry: &mut IdtEntry,
    handler: u64,
    code_selector: SegmentSelector,
    index: u8,
)
    ensures
        *final(entry) == gate(handler, code_selector.bits, PrivilegeLevel::Ring0, index),
{
    entry.ist_index = index;
    set_handler_fn(entry, handler, code_selector);
}

/// A gate to the handler at `ptr` in the kernel code segment, callable from `privilege`.
pub fn create_idt_entry(ptr: u64, privilege: PrivilegeLevel) -> (r: IdtEntry)
    ensures
        r == gate(ptr, KERNEL_CODE_SELECTOR, privilege, 0),
{
    gate_entry(ptr, KERNEL_CODE_SELECTOR, privilege, 0)
}

/// A gate to an interrupt handler, callable from the kernel only.
pub fn intr_handler_entry(ptr: u64) -> (r: IdtEntry)
    ensures
        r == gate(ptr, KERNEL_CODE_SELECTOR, PrivilegeLevel::Ring0, 0),
{
    create_idt_entry(ptr, PrivilegeLevel::Ring0)
}

/// A gate to the system call handler, callable from user mode.
pub fn syscall_handler_entry(ptr: u64) -> (r: IdtEntry)
    ensures
        r == gate(ptr, KERNEL_CODE_SELECTOR, PrivilegeLevel::Ring3, 0),
{
    create_idt_entry(ptr, PrivilegeLevel::Ring3)
}

/// A gate to the double-fault handler, run on the stack of interrupt stack table entry
/// `index`.
pub fn double_fault_handler_entry(ptr: u64, index: u8) -> (r: IdtEntry)
    ensures
        r == gate(ptr, KERNEL_CODE_SELECTOR, PrivilegeLevel::Ring0, index),
{
    let mut i = intr_handler_entry(ptr);
    i.ist_index = index;
    i
}

/// A gate to an exception or interrupt handler, callable from the kernel only.
pub fn fn_handler_entry(ptr: u64) -> (r: IdtEntry)
    ensures
        r == gate(ptr, KERNEL_CODE_SELECTOR, PrivilegeLevel::Ring0, 0),
{
    intr_handler_entry(ptr)
}

/// Vector of the first hardware interrupt (the timer).
pub const IRQ_OFFSET: u64 = 32;

/// Vector of system calls.
pub const SYSCALL_OFFSET: u64 = 0x80;

/// The addresses of the handlers of a kernel: `exceptions[v]` handles exception vector `v`,
/// `irqs` handle the timer, the keyboard, the cascade, COM2 and COM1 in that order.
pub struct IdtHandlers {
    pub exceptions: [u64; 32],
    pub irqs: [u64; 5],
    pub syscall: u64,
}

/// Entry `v` of the IDT of `handlers`: a gate for each exception vector the kernel
/// handles (the double fault on its own stack), for each hardware interrupt from
/// `IRQ_OFFSET` on and for system calls (callable from user mode); no handler elsewhere.
pub open spec fn idt_slot(handlers: &IdtHandlers, v: int) -> IdtEntry {
    let missing = IdtEntry { base_lo: 0, selector: 0, ist_index: 0, flags: 0, base_hi: 0 };
    if 0 <= v < 32 {
        if exists|e: Exception| vector_of(e) == v {
            gate(
                handlers.exceptions[v],
                KERNEL_CODE_SELECTOR,
                PrivilegeLevel::Ring0,
                if v == 8 {
                    DOUBLE_FAULT_IST_INDEX as u8
                } else {
                    0
                },
            )
        } else {
            missing
        }
    } else if IRQ_OFFSET <= v < IRQ_OFFSET + 5 {
        gate(handlers.irqs[v - IRQ_OFFSET], KERNEL_CODE_SELECTOR, PrivilegeLevel::Ring0, 0)
    } else if v == SYSCALL_OFFSET {
        gate(handlers.syscall, KERNEL_CODE_SELECTOR, PrivilegeLevel::Ring3, 0)
    } else {
        missing
    }
}

/// The 256 entries of the interrupt descriptor table of `handlers` (see `idt_slot`).
pub fn create_idt(handlers: &IdtHandlers) -> (r: Vec<IdtEntry>)
    ensures
        r@.len() == 256,
        forall|v: int| 0 <= v < 256 ==> #[trigger] r@[v] == idt_slot(handlers, v),
{
    let mut idt: Vec<IdtEntry> = Vec::new();
    let mut v: u64 = 0;
    while v < 256
        invariant
            v <= 256,
            idt@.len() == v,
            forall|k: int| 0 <= k < v ==> #[trigger] idt@[k] == idt_slot(handlers, k),
        decreases 256 - v,
    {
        let entry = if v < 32 {
            match Exception::from_vector(v as u8) {
                Some(e) => {
                    if v == 8 {
                        double_fault_handler_entry(handlers.exceptions[v as usize], DOUBLE_FAULT_IST_INDEX as u8)
                    } else {
                        intr_handler_entry(handlers.exceptions[v as usize])
                    }
                },
                None => IdtEntry::missing(),
            }
        } else if IRQ_OFFSET <= v && v < IRQ_OFFSET + 5 {
            intr_handler_entry(handlers.irqs[(v - IRQ_OFFSET) as usize])
        } else if v == SYSCALL_OFFSET {
            syscall_handler_entry(handlers.syscall)
        } else {
            IdtEntry::missing()
        };
        idt.push(entry);
        v = v + 1;
    }
    idt
}

} // verus!
