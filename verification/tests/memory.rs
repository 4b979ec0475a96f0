use rxinu::gdt::{bits32, bits64, x86_64 as gdt64};
use rxinu::interrupts::DOUBLE_FAULT_IST_INDEX;
use rxinu::memory::area_frame_allocator::{
    AreaFrameAllocator, FrameRange, MemoryRegion, MemoryRegionType,
};
use rxinu::memory::stack_allocator::StackAllocator;
use rxinu::memory::{self, Frame, FrameAllocator, HEAP_SIZE, HEAP_START};
use rxinu::paging::entry::{Entry, EntryFlags};
use rxinu::paging::mapper::{MapToError, PageMapLevel4Mapper};
use rxinu::paging::page::Page;
use rxinu::paging::page32::Page as Page32;
use rxinu::paging::physical::PhysicalMemory;

fn region(start: u64, end: u64, region_type: MemoryRegionType) -> MemoryRegion {
    MemoryRegion { range: FrameRange { start_frame_number: start, end_frame_number: end }, region_type }
}

fn empty_page_table() -> PageMapLevel4Mapper {
    let mut memory = PhysicalMemory::new();
    memory.add_table(1000, 4);
    PageMapLevel4Mapper::new(memory, 1000)
}

#[test]
fn pages_and_frames() {
    let page = Page::containing_address(0x1234_5678);
    assert_eq!(page.number, 0x12345);
    assert_eq!(page.start_address(), 0x1234_5000);
    assert_eq!(Page::containing_address(page.start_address()), page);
    let p = Page { number: (1 << 27) * 3 + (1 << 18) * 5 + (1 << 9) * 7 + 9 };
    assert_eq!((p.p4_index(), p.p3_index(), p.p2_index(), p.p1_index()), (3, 5, 7, 9));
    assert_eq!(p.add(2).number, p.number + 2);
    let f = Frame::containing_address(0x5fff);
    assert_eq!(f.number, 5);
    assert_eq!(f.start_address(), 0x5000);
    let q = Page32::containing_address(0x0080_3000);
    assert_eq!((q.p2_index(), q.p1_index()), (2, 3));
    assert_eq!(q.start_address(), 0x0080_3000);
}

#[test]
fn page_ranges() {
    let mut range = Page::range_inclusive(Page { number: 5 }, Page { number: 7 });
    assert_eq!(range.next().map(|p| p.number), Some(5));
    assert_eq!(range.nth(1).map(|p| p.number), Some(7));
    assert_eq!(range.next().map(|p| p.number), None);
    let mut range = Page::range_inclusive(Page { number: 5 }, Page { number: 7 });
    assert!(range.nth(3).is_none());
    let mut range32 = Page32::range_inclusive(Page32 { number: 1 }, Page32 { number: 1 });
    assert_eq!(range32.next(), Some(Page32 { number: 1 }));
    assert_eq!(range32.next(), None);
}

#[test]
fn entries() {
    let mut entry = Entry::unused();
    assert!(entry.is_unused());
    assert_eq!(entry.pointed_frame(), None);
    entry.set(Frame { number: 0x42 }, EntryFlags::present().union(EntryFlags::no_execute()));
    assert_eq!(entry.bits(), 0x8000_0000_0004_2001);
    assert_eq!(entry.pointed_frame(), Some(Frame { number: 0x42 }));
    assert!(entry.flags().contains(EntryFlags::no_execute()));
    assert!(!entry.flags().contains(EntryFlags::writable()));
    entry.set_unused();
    assert!(entry.is_unused());
    assert_eq!(EntryFlags::from_bits_truncate(0xffff).bits(), 0x1ff);
}

#[test]
fn area_allocator_hands_out_the_first_usable_region() {
    let mut allocator = AreaFrameAllocator::new(&vec![
        region(0, 10, MemoryRegionType::Reserved),
        region(20, 22, MemoryRegionType::Usable),
        region(30, 40, MemoryRegionType::Usable),
    ]);
    assert_eq!(allocator.allocate_frame(), Some(Frame { number: 20 }));
    assert_eq!(allocator.allocate_frame(), Some(Frame { number: 21 }));
    assert_eq!(allocator.allocate_frame(), None);
    assert_eq!(allocator.memory_map()[1].range.start_frame_number, 22);
}

#[test]
fn stacks_have_guard_pages() {
    let mut page_table = empty_page_table();
    let mut allocator = AreaFrameAllocator::new(&vec![region(0, 64, MemoryRegionType::Usable)]);
    let range = Page::range_inclusive(Page { number: 100 }, Page { number: 110 });
    let mut stacks = StackAllocator::new(range);
    assert!(stacks.alloc_stack(&mut page_table, &mut allocator, 0).is_none());
    assert!(stacks.alloc_stack(&mut page_table, &mut allocator, 11).is_none());
    let first = stacks.alloc_stack(&mut page_table, &mut allocator, 2).unwrap();
    assert_eq!((first.bottom(), first.top()), (101 * 4096, 103 * 4096));
    let second = stacks.alloc_stack(&mut page_table, &mut allocator, 3).unwrap();
    assert_eq!((second.bottom(), second.top()), (104 * 4096, 107 * 4096));
    // the guard pages stay unmapped, the stack pages are mapped
    assert_eq!(page_table.translate(100 * 4096), None);
    assert_eq!(page_table.translate(103 * 4096), None);
    assert!(page_table.translate(101 * 4096).is_some());
    assert!(page_table.translate(106 * 4096 + 4095).is_some());
    assert!(page_table.translate(107 * 4096).is_none());
}

#[test]
fn memory_init_maps_the_heap_and_sets_stacks_up() {
    let memory_map = vec![region(0, 400, MemoryRegionType::Usable)];
    let mut controller = memory::init(&memory_map, empty_page_table()).unwrap();
    let table = controller.page_table();
    assert!(table.translate(HEAP_START).is_some());
    assert!(table.translate(HEAP_START + HEAP_SIZE - 1).is_some());
    assert!(table.translate(HEAP_START + HEAP_SIZE + 4096).is_none());
    let heap_end_page = (HEAP_START + HEAP_SIZE - 1) / 4096;
    let stack = controller.alloc_stack(4).unwrap();
    assert_eq!(stack.bottom(), (heap_end_page + 2) * 4096);
    assert_eq!(stack.top(), (heap_end_page + 6) * 4096);
    let tss = gdt64::tss(&mut controller).unwrap();
    assert_ne!(tss.ist[DOUBLE_FAULT_IST_INDEX], 0);
    assert!(tss.rsp.iter().all(|&s| s != 0));
    let tss = bits64::tss(&mut controller).unwrap();
    assert_eq!(tss.rsp, [0, 0, 0]);
    let tss = bits32::tss(&mut controller).unwrap();
    assert_ne!(tss.esp0, 0);
}

#[test]
fn memory_init_runs_out_of_frames() {
    let memory_map = vec![region(0, 10, MemoryRegionType::Usable)];
    assert!(matches!(
        memory::init(&memory_map, empty_page_table()),
        Err(MapToError::FrameAllocationFailed)
    ));
}

#[test]
fn map_takes_the_next_frames_of_the_allocator() {
    let mut page_table = empty_page_table();
    let mut allocator = AreaFrameAllocator::new(&vec![region(50, 64, MemoryRegionType::Usable)]);
    page_table.map(Page { number: 7 }, EntryFlags::writable(), &mut allocator).unwrap();
    // the page gets frame 50; its three tables take frames 51 to 53
    assert_eq!(page_table.translate_page(Page { number: 7 }), Some(Frame { number: 50 }));
    assert_eq!(allocator.allocate_frame(), Some(Frame { number: 54 }));
    let mut empty = AreaFrameAllocator::new(&vec![region(5, 5, MemoryRegionType::Usable)]);
    assert_eq!(
        page_table.map(Page { number: 8 }, EntryFlags::writable(), &mut empty),
        Err(MapToError::FrameAllocationFailed)
    );
    let mut too_high = AreaFrameAllocator::new(&vec![region(1 << 40, (1 << 40) + 4, MemoryRegionType::Usable)]);
    assert_eq!(
        page_table.map(Page { number: 8 }, EntryFlags::writable(), &mut too_high),
        Err(MapToError::InvalidFrame)
    );
}

/// The level-1 entry of `page` in `table`, if all four levels of tables exist.
fn leaf_entry(table: &PageMapLevel4Mapper, page: Page) -> Option<Entry> {
    let memory = table.memory();
    let mut frame = table.top_table_frame();
    for index in [page.p4_index(), page.p3_index(), page.p2_index()] {
        frame = memory.read_entry(frame, index).pointed_frame()?.number;
    }
    Some(memory.read_entry(frame, page.p1_index()))
}

#[test]
fn stack_and_heap_pages_are_writable_and_not_executable() {
    let stack_flags = EntryFlags::present().union(EntryFlags::writable()).union(EntryFlags::no_execute());
    let mut page_table = empty_page_table();
    let mut allocator = AreaFrameAllocator::new(&vec![region(0, 64, MemoryRegionType::Usable)]);
    let range = Page::range_inclusive(Page { number: 100 }, Page { number: 110 });
    let mut stacks = StackAllocator::new(range);
    stacks.alloc_stack(&mut page_table, &mut allocator, 2).unwrap();
    for n in [101, 102] {
        let entry = leaf_entry(&page_table, Page { number: n }).unwrap();
        assert_eq!(entry.flags().bits(), stack_flags.bits());
    }
    // a range too short for the stack takes no frame
    let next = allocator.memory_map()[0].range.start_frame_number;
    assert!(stacks.alloc_stack(&mut page_table, &mut allocator, 20).is_none());
    assert_eq!(allocator.allocate_frame(), Some(Frame { number: next }));

    let memory_map = vec![region(0, 600, MemoryRegionType::Usable)];
    let controller = memory::init(&memory_map, empty_page_table()).unwrap();
    let heap_page = Page::containing_address(HEAP_START + 4096);
    let entry = leaf_entry(controller.page_table(), heap_page).unwrap();
    assert_eq!(entry.flags().bits(), stack_flags.bits());
}
