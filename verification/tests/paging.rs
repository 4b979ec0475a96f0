use rxinu::memory::area_frame_allocator::{
    AreaFrameAllocator, FrameRange, MemoryRegion, MemoryRegionType,
};
use rxinu::memory::{Frame, FrameAllocator};
use rxinu::paging::entry::{Entry, EntryFlags};
use rxinu::paging::mapper::PageMapLevel4Mapper;
use rxinu::paging::page::Page;
use rxinu::paging::physical::PhysicalMemory;

const P4_FRAME: u64 = 100;
const P3_FRAME: u64 = 101;
const P2_FRAME: u64 = 102;

/// A frame allocator whose first frame is frame 0.
fn allocator() -> AreaFrameAllocator {
    let map = vec![
        MemoryRegion {
            range: FrameRange { start_frame_number: 0, end_frame_number: 64 },
            region_type: MemoryRegionType::Usable,
        },
        MemoryRegion {
            range: FrameRange { start_frame_number: 64, end_frame_number: 128 },
            region_type: MemoryRegionType::PageTable,
        },
    ];
    AreaFrameAllocator::new(&map)
}

fn table_entry(frame_number: u64, flags: EntryFlags) -> Entry {
    let mut entry = Entry::unused();
    entry.set(Frame { number: frame_number }, flags);
    entry
}

/// The tables the boot loader leaves: the first GiB identity mapped with 2 MiB pages.
fn page_table() -> PageMapLevel4Mapper {
    let table_flags = EntryFlags::present().union(EntryFlags::writable());
    let huge_flags = table_flags.union(EntryFlags::huge_page());
    let mut memory = PhysicalMemory::new();
    memory.add_table(P4_FRAME, 4);
    memory.add_table(P3_FRAME, 3);
    memory.add_table(P2_FRAME, 2);
    memory.write_entry(P4_FRAME, 0, table_entry(P3_FRAME, table_flags));
    memory.write_entry(P3_FRAME, 0, table_entry(P2_FRAME, table_flags));
    for i in 0..512u64 {
        memory.write_entry(P2_FRAME, i as usize, table_entry(i * 512, huge_flags));
    }
    PageMapLevel4Mapper::new(memory, P4_FRAME)
}

#[test]
fn mod_map() {
    let mut page_table = page_table();
    let mut allocator = allocator();

    let addr = 42 * 512 * 512 * 4096; // 42th P3 entry
    let page = Page::containing_address(addr);
    let frame = allocator.allocate_frame().expect("no more frames");

    // Test: Unmapped page should not have a physical address
    assert!(page_table.translate(addr).is_none());

    // Test: First frame returned by frame allocator is 0
    assert_eq!(frame.number, 0);

    // Test: Map page to Some frame
    page_table.map_to(page, frame, EntryFlags::empty(), &mut allocator).unwrap();
    assert!(page_table.translate(addr).is_some());

    // Test: Mapping code needs to create a P2 and P1 table
    //       Next returned frame is frame 3
    assert_eq!(allocator.allocate_frame().expect("no more frames").number, 3);
}

#[test]
fn mod_translate() {
    let page_table = page_table();

    // address 0 is mapped
    assert!(page_table.translate(0).is_some());

    // second P1 entry
    assert!(page_table.translate(4096).is_some());

    // second P2 entry
    assert!(page_table.translate(512 * 4096).is_some());

    // 300th P2 entry
    assert!(page_table.translate(300 * 512 * 4096).is_some());

    // second P3 entry
    assert!(page_table.translate(512 * 512 * 4096).is_none());

    // last mapped byte
    assert!(page_table.translate(512 * 512 * 4096 - 1).is_some());
}

#[test]
fn mod_unmap() {
    let mut page_table = page_table();
    let mut allocator = allocator();

    let addr = 42 * 512 * 512 * 4096; // 42th P3 entry
    let page = Page::containing_address(addr);
    let frame = allocator.allocate_frame().expect("no more frames");

    page_table.translate(addr).is_none();
    page_table.map_to(page, frame, EntryFlags::empty(), &mut allocator).unwrap();

    page_table.unmap(Page::containing_address(addr), &mut allocator);
    assert!(page_table.translate(addr).is_none());
}

#[test]
fn translate_inside_huge_page_keeps_offset() {
    let page_table = page_table();
    assert_eq!(page_table.translate(0x12_3456), Some(0x12_3456));
    assert_eq!(page_table.translate(300 * 512 * 4096 + 5), Some(300 * 512 * 4096 + 5));
}

#[test]
fn map_to_sets_frame_and_offset() {
    let mut page_table = page_table();
    let mut allocator = allocator();
    let addr = 7 * 512 * 512 * 4096 + 3 * 4096;
    page_table
        .map_to(Page::containing_address(addr), Frame { number: 0x55 }, EntryFlags::writable(), &mut allocator)
        .unwrap();
    assert_eq!(page_table.translate(addr + 17), Some(0x55 * 4096 + 17));
    // the huge pages of the first GiB are still there
    assert_eq!(page_table.translate(4096), Some(4096));
}
