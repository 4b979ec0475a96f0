use rxinu::context::x86_64::{Context as TaskContext, StackWrite};
use rxinu::context::Context;
use rxinu::gdt::{
    bits32, bits64, PrivilegeLevel, SegmentBitness, SegmentDescriptor, SegmentSelector, SegmentType,
    GDT_KERNEL_CODE, GDT_TSS, GDT_USER_CODE, TSS_SIZE,
};
use rxinu::gdt::encoding::{descriptor_bits, encode_gdt};
use rxinu::interrupts::idt::{
    create_idt, double_fault_handler_entry, intr_handler_entry, set_double_fault_handler_fn,
    set_handler_fn, syscall_handler_entry, IdtEntry, IdtHandlers,
};
use rxinu::interrupts::stack_frame::{ExceptionStack32, ExceptionStackFrame, SyscallStack};
use rxinu::paging::table::{bits32 as table32, bits64 as table64};

#[test]
fn selectors_hold_index_and_privilege() {
    let s = SegmentSelector::new(GDT_KERNEL_CODE, PrivilegeLevel::Ring0);
    assert_eq!(s.bits, 0x8);
    assert_eq!(s.index(), 1);
    let t = SegmentSelector::new(GDT_TSS, PrivilegeLevel::Ring3);
    assert_eq!(t.bits, 5 * 8 + 3);
    assert_eq!(t.index(), GDT_TSS);
    assert_eq!(PrivilegeLevel::Ring2.level(), 2);
}

#[test]
fn gdt_layouts() {
    let gdt = bits64::create_gdt(0x1234_5678_9abc_d000);
    assert_eq!(gdt.len(), 7);
    assert_eq!(gdt[0], SegmentDescriptor::Null);
    assert_eq!(
        gdt[1],
        SegmentDescriptor::Memory {
            base: 0,
            limit: 0,
            segment_type: SegmentType::CodeRead,
            accessed: false,
            privilege: PrivilegeLevel::Ring0,
            bitness: SegmentBitness::Bits64,
        }
    );
    assert_eq!(
        gdt[5],
        SegmentDescriptor::Tss { base: 0x1234_5678_9abc_d000, limit: 103, privilege: PrivilegeLevel::Ring3 }
    );
    assert_eq!(gdt[6], SegmentDescriptor::TssUpper { base: 0x1234_5678_9abc_d000 });
    let gdt32 = bits32::create_gdt(0x9abc_d000);
    assert_eq!(gdt32.len(), 6);
    assert!(matches!(gdt32[3], SegmentDescriptor::Memory { privilege: PrivilegeLevel::Ring3, bitness: SegmentBitness::Bits32, .. }));
}

#[test]
fn gates_split_the_handler_address() {
    let entry = intr_handler_entry(0x1234_5678_9abc);
    assert_eq!(
        entry,
        IdtEntry { base_lo: 0x9abc, selector: 0x8, ist_index: 0, flags: 0x8E, base_hi: 0x1234_5678 }
    );
    assert_eq!(syscall_handler_entry(0x10).flags, 0xEE);
    assert_eq!(double_fault_handler_entry(0x10, 0).flags, 0x8E);
    assert_eq!(double_fault_handler_entry(0x10, 2).ist_index, 2);
    let mut e = IdtEntry::missing();
    set_double_fault_handler_fn(&mut e, 0x2_0000, SegmentSelector::new(1, PrivilegeLevel::Ring0), 1);
    assert_eq!(e, IdtEntry { base_lo: 0, selector: 8, ist_index: 1, flags: 0x8E, base_hi: 2 });
    set_handler_fn(&mut e, 0x3_0001, SegmentSelector::new(1, PrivilegeLevel::Ring0));
    assert_eq!(e, IdtEntry { base_lo: 1, selector: 8, ist_index: 1, flags: 0x8E, base_hi: 3 });
}

#[test]
fn idt_layout() {
    let mut exceptions = [0u64; 32];
    for (v, slot) in exceptions.iter_mut().enumerate() {
        *slot = 0x1000 + v as u64;
    }
    let handlers = IdtHandlers { exceptions, irqs: [0x2000, 0x2001, 0x2002, 0x2003, 0x2004], syscall: 0x3000 };
    let idt = create_idt(&handlers);
    assert_eq!(idt.len(), 256);
    assert_eq!(idt[3], intr_handler_entry(0x1003));
    assert_eq!(idt[8], double_fault_handler_entry(0x1008, 0));
    // reserved vectors have no handler
    assert_eq!(idt[9], IdtEntry::missing());
    assert_eq!(idt[15], IdtEntry::missing());
    assert_eq!(idt[31], IdtEntry::missing());
    assert_eq!(idt[32], intr_handler_entry(0x2000));
    assert_eq!(idt[36], intr_handler_entry(0x2004));
    assert_eq!(idt[37], IdtEntry::missing());
    assert_eq!(idt[0x80], syscall_handler_entry(0x3000));
    assert_eq!(idt[255], IdtEntry::missing());
}

#[test]
fn recursive_table_addresses() {
    let p4 = table64::RECURSIVE_ENTRY;
    assert_eq!(table64::get_address(p4, 0), 0xffff_ffff_ffe0_0000);
    assert_eq!(table64::get_address(p4, 3), 0xffff_ffff_ffe0_3000);
    let p2 = table32::RECURSIVE_ENTRY;
    assert_eq!(table32::get_address(p2, 1), 0xffc0_1000);
}

#[test]
fn contexts() {
    let mut c = Context::new();
    c.set_page_table(0x1000);
    c.set_stack(0x8000);
    assert_eq!((c.cr3, c.reg_sp), (0x1000, 0x8000));
    let (task, writes) = TaskContext::new(0x10_0000, 0xaaaa, 0xbbbb);
    assert_eq!(task.rflags, 0x200);
    assert_eq!(task.rbp, 0x10_0000);
    assert_eq!(task.rsp, 0x10_0000 - 16);
    assert_eq!(
        writes,
        vec![
            StackWrite { address: 0x10_0000 - 8, value: 0xbbbb },
            StackWrite { address: 0x10_0000 - 16, value: 0xaaaa },
        ]
    );
    let mut t = TaskContext::empty();
    t.rsp = 64;
    assert_eq!(t.push_stack(7), StackWrite { address: 56, value: 7 });
    assert_eq!(t.rsp, 56);
}

#[test]
fn stack_frame_reports() {
    let frame = ExceptionStackFrame {
        instruction_pointer: 1,
        code_segment: 2,
        cpu_flags: 3,
        stack_pointer: 4,
        stack_segment: 5,
    };
    let fields = frame.fields();
    assert_eq!(fields.len(), 5);
    assert_eq!((fields[0].name, fields[0].value, fields[0].hex), ("instruction_pointer", 1, true));
    assert_eq!((fields[1].name, fields[1].hex), ("code_segment", false));
    let s = SyscallStack { fs: 1, r11: 2, r10: 3, r9: 4, r8: 5, rsi: 6, rdi: 7, rdx: 8, rcx: 9, rip: 10, cs: 11, rflags: 12 };
    let fields = s.fields();
    assert_eq!(fields.len(), 12);
    assert_eq!((fields[0].name, fields[11].name, fields[11].value), ("fs", "rflags", 12));
}

#[test]
fn memory_descriptors_encode_as_the_processor_reads_them() {
    let gdt = bits64::create_gdt(0x1234_5678_9abc_d000);
    let gdt32 = bits32::create_gdt(0x9abc_d000);
    assert_eq!(descriptor_bits(gdt[0]), Some(0));
    assert_eq!(descriptor_bits(gdt[1]), Some(0x0020_9A00_0000_0000));
    assert_eq!(descriptor_bits(gdt[2]), Some(0x0020_9200_0000_0000));
    assert_eq!(descriptor_bits(gdt[3]), Some(0x0020_FA00_0000_0000));
    assert_eq!(descriptor_bits(gdt[4]), Some(0x0020_F200_0000_0000));
    assert_eq!(descriptor_bits(gdt[5]), Some(0x9a00_e9bc_d000_0067));
    assert_eq!(descriptor_bits(gdt[6]), Some(0x1234_5678));
    assert_eq!(descriptor_bits(gdt32[5]), Some(0x9a00_e9bc_d000_0067));
    let bits = encode_gdt(&gdt).unwrap();
    assert_eq!(bits.len(), 7);
    assert_eq!(bits[3], 0x0020_FA00_0000_0000);
    assert_eq!(bits[6], 0x1234_5678);
    assert_eq!(descriptor_bits(gdt32[1]), Some(0x0040_9A00_0000_0000));
    assert_eq!(descriptor_bits(gdt32[4]), Some(0x0040_F200_0000_0000));
    let accessed = SegmentDescriptor::Memory {
        base: 0,
        limit: 0,
        segment_type: SegmentType::CodeRead,
        accessed: true,
        privilege: PrivilegeLevel::Ring0,
        bitness: SegmentBitness::Bits64,
    };
    assert_eq!(descriptor_bits(accessed), None);
    let placed = SegmentDescriptor::Memory {
        base: 0x1234_5678,
        limit: 0xa_bcde,
        segment_type: SegmentType::CodeRead,
        accessed: false,
        privilege: PrivilegeLevel::Ring0,
        bitness: SegmentBitness::Bits64,
    };
    assert_eq!(descriptor_bits(placed), Some(0x122a_9a34_5678_bcde));
}

#[test]
fn user_code_slot_holds_a_ring3_code_segment() {
    let gdt = bits64::create_gdt(0x1234_5678_9abc_d000);
    assert_eq!(
        gdt[GDT_USER_CODE as usize],
        SegmentDescriptor::Memory {
            base: 0,
            limit: 0,
            segment_type: SegmentType::CodeRead,
            accessed: false,
            privilege: PrivilegeLevel::Ring3,
            bitness: SegmentBitness::Bits64,
        }
    );
}

#[test]
fn selectors_and_table_addresses_truncate_like_the_shifts() {
    assert_eq!(SegmentSelector::new(8193, PrivilegeLevel::Ring3).bits, 11);
    assert_eq!(table32::get_address(1, 2000), 1024 | (2000 << 12));
    assert_eq!(table32::get_address(0x0010_0001, 0), 0x4000_0400);
    assert_eq!(table64::get_address(1 << 60, 513), 513 << 12);
}

#[test]
fn task_state_segments_are_as_large_as_the_processor_reads_them() {
    assert_eq!(core::mem::size_of::<x86::bits64::task::TaskStateSegment>() as u64, TSS_SIZE);
    assert_eq!(core::mem::size_of::<x86::bits32::task::TaskStateSegment>() as u64, TSS_SIZE);
}

#[test]
fn stack_frames_read_as_the_debug_output() {
    let frame = ExceptionStackFrame {
        instruction_pointer: 0x10,
        code_segment: 8,
        cpu_flags: 0x202,
        stack_pointer: 0x1000,
        stack_segment: 0,
    };
    assert_eq!(
        frame.debug_string(),
        "ExceptionStackFrame { instruction_pointer: 0x10, code_segment: 8, cpu_flags: 0x202, stack_pointer: 0x1000, stack_segment: 0 }"
    );
    let s = SyscallStack { fs: 0, r11: 0, r10: 0, r9: 0, r8: 0, rsi: 0, rdi: 0, rdx: 0, rcx: 0, rip: 0x1000, cs: 8, rflags: 0x202 };
    assert_eq!(
        s.debug_string(),
        "SyscallStack { fs: 0x0, r11: 0x0, r10: 0x0, r9: 0x0, r8: 0x0, rsi: 0x0, rdi: 0x0, rdx: 0x0, rcx: 0x0, rip: 0x1000, cs: 0x8, rflags: 0x202 }"
    );
    let wide = ExceptionStackFrame {
        instruction_pointer: u64::MAX,
        code_segment: 1234567890,
        cpu_flags: 0xabcdef,
        stack_pointer: 0,
        stack_segment: 10,
    };
    assert_eq!(
        wide.debug_string(),
        "ExceptionStackFrame { instruction_pointer: 0xffffffffffffffff, code_segment: 1234567890, cpu_flags: 0xabcdef, stack_pointer: 0x0, stack_segment: 10 }"
    );
}

#[test]
fn breakpoint_reports_the_frame() {
    let frame = ExceptionStackFrame {
        instruction_pointer: 0x10,
        code_segment: 8,
        cpu_flags: 0x202,
        stack_pointer: 0x1000,
        stack_segment: 0,
    };
    let pretty = "ExceptionStackFrame {\n    instruction_pointer: 0x10,\n    code_segment: 8,\n    cpu_flags: 0x202,\n    stack_pointer: 0x1000,\n    stack_segment: 0,\n}";
    assert_eq!(frame.pretty_string(), pretty);
    assert_eq!(frame.breakpoint_report(), format!("EXCEPTION: BREAKPOINT\n{}", pretty));
    let frame32 = ExceptionStack32 {
        instruction_pointer: 0x10,
        code_segment: 8,
        cpu_flags: 0x202,
        stack_pointer: 0x1000,
        stack_segment: 0,
    };
    assert_eq!(frame32.report(), format!("\n{}", pretty));
}
