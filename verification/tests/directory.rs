use rxinu::boot::ElfSection;
use rxinu::memory::area_frame_allocator::{
    AreaFrameAllocator, FrameRange, MemoryRegion, MemoryRegionType,
};
use rxinu::memory::{Frame, FrameAllocator};
use rxinu::paging::directory::{EntryFlags, PageDirectoryMapper};
use rxinu::paging::mapper::MapToError;
use rxinu::paging::page32::Page;

fn allocator(start: u64, end: u64) -> AreaFrameAllocator {
    AreaFrameAllocator::new(&vec![MemoryRegion {
        range: FrameRange { start_frame_number: start, end_frame_number: end },
        region_type: MemoryRegionType::Usable,
    }])
}

#[test]
fn directory_map_translate_unmap() {
    let mut mapper = PageDirectoryMapper::new(Frame { number: 1 });
    let mut allocator = allocator(10, 20);
    let addr: u32 = 42 * 1024 * 4096 + 5 * 4096;
    let page = Page::containing_address(addr);
    assert_eq!(mapper.translate(addr), None);
    mapper.map_to(page, Frame { number: 0x333 }, EntryFlags::writable(), &mut allocator).unwrap();
    assert_eq!(mapper.translate(addr + 9), Some(0x333 * 4096 + 9));
    // one page table was needed: frame 10
    assert_eq!(allocator.allocate_frame().unwrap().number, 11);
    // the directory entry points to it
    assert_eq!(mapper.top_table(42).pointed_frame(), Some(Frame { number: 10 }));
    mapper.unmap(page, &mut allocator);
    assert_eq!(mapper.translate(addr), None);
}

#[test]
fn directory_identity_map_and_map() {
    let mut mapper = PageDirectoryMapper::new(Frame { number: 1 });
    let mut allocator = allocator(10, 20);
    mapper.identity_map(Frame { number: 0xb8 }, EntryFlags::writable(), &mut allocator).unwrap();
    assert_eq!(mapper.translate(0xb8000), Some(0xb8000));
    mapper.map(Page { number: 0xb9 }, EntryFlags::empty(), &mut allocator).unwrap();
    // the table for the first 4 MiB exists already, so the frame is the next one: 11
    assert_eq!(mapper.translate_page(Page { number: 0xb9 }), Some(Frame { number: 11 }));
}

#[test]
fn directory_map_to_errors() {
    let mut mapper = PageDirectoryMapper::new(Frame { number: 1 });
    let mut empty = allocator(0, 0);
    assert_eq!(
        mapper.map_to(Page { number: 5 }, Frame { number: 7 }, EntryFlags::empty(), &mut empty),
        Err(MapToError::FrameAllocationFailed)
    );
    // the allocator hands out the frame of the directory
    let mut clash = allocator(1, 2);
    assert_eq!(
        mapper.map_to(Page { number: 5 }, Frame { number: 7 }, EntryFlags::empty(), &mut clash),
        Err(MapToError::FrameInUse)
    );
    let mut too_high = allocator(1 << 20, (1 << 20) + 1);
    assert_eq!(
        mapper.map_to(Page { number: 5 }, Frame { number: 7 }, EntryFlags::empty(), &mut too_high),
        Err(MapToError::InvalidFrame)
    );
    assert_eq!(mapper.translate(5 * 4096), None);
}

#[test]
fn directory_section_flags() {
    let code = ElfSection { start_address: 0, end_address: 4096, flags: 0x6 };
    let data = ElfSection { start_address: 0, end_address: 4096, flags: 0x3 };
    let unloaded = ElfSection { start_address: 0, end_address: 4096, flags: 0x1 };
    assert_eq!(EntryFlags::from_elf_section_flags(&code).bits(), 0x1);
    assert_eq!(EntryFlags::from_elf_section_flags(&data).bits(), 0x3);
    assert_eq!(EntryFlags::from_elf_section_flags(&unloaded).bits(), 0x2);
}

const DIR_PAGE_SIZE: u32 = 4096;
const DIR_ENTRY_COUNT: u32 = 1024;

/// A page directory in frame 0x800 whose tables identity-map the first, the second, the
/// 300th and the last 4 MiB.
fn boot_directory() -> PageDirectoryMapper {
    let mut mapper = PageDirectoryMapper::new(Frame { number: 0x800 });
    let mut tables = allocator(0x700, 0x7ff);
    for p2 in [0u64, 1, 300, 1023] {
        for p1 in 0..1024u64 {
            let frame = Frame { number: p2 * 1024 + p1 };
            mapper.identity_map(frame, EntryFlags::writable(), &mut tables).unwrap();
        }
    }
    mapper
}

/// Frames 0, 1, 2, 3 and on, in order.
fn test_allocator() -> rxinu::memory::usable_frame_allocator::UsableFrameAllocator {
    rxinu::memory::usable_frame_allocator::init_frame_allocator(&vec![MemoryRegion {
        range: FrameRange { start_frame_number: 0, end_frame_number: 64 },
        region_type: MemoryRegionType::Usable,
    }])
}

#[test]
fn mapper_map() {
    let mut page_table = PageDirectoryMapper::empty();
    let mut allocator = test_allocator();

    let addr: u32 = 42 * 512 * 4096; // 42th P2 entry
    let page = Page::containing_address(addr);
    let frame = allocator.allocate_frame().expect("no more frames");

    // Test: Unmapped page should not have a physical address
    assert!(page_table.translate(addr).is_none());

    // Test: First frame returned by frame allocator is 0
    assert_eq!(frame.number, 0);

    // Test: Map page to Some frame
    page_table.map_to(page, frame, EntryFlags::empty(), &mut allocator).unwrap();
    assert!(page_table.translate(addr).is_some());

    // Test: Mapping code needs to create a P2 and P1 table
    //       Next returned frame is frame 3
    assert_eq!(allocator.allocate_frame().expect("no more frames").number, 3);
}

#[test]
fn mapper_translate() {
    let page_table = boot_directory();

    // address 0 is mapped
    assert!(page_table.translate(0).is_some());

    // second P1 entry
    assert!(page_table.translate(DIR_PAGE_SIZE).is_some());

    // second P2 entry
    assert!(page_table.translate(DIR_ENTRY_COUNT * DIR_PAGE_SIZE).is_some());

    // 300th P2 entry
    assert!(page_table.translate(300 * DIR_ENTRY_COUNT * DIR_PAGE_SIZE).is_some());

    // last mapped byte
    assert!(page_table.translate((DIR_ENTRY_COUNT as u64 * DIR_ENTRY_COUNT as u64 * DIR_PAGE_SIZE as u64 - 1) as u32).is_some());
}

#[test]
fn mapper_unmap() {
    let mut page_table = boot_directory();
    let mut allocator = test_allocator();

    let addr: u32 = 42 * DIR_ENTRY_COUNT * DIR_PAGE_SIZE; // 42th P2 entry
    let page = Page::containing_address(addr);
    let frame = allocator.allocate_frame().expect("no more frames");

    page_table.translate(addr).is_none();
    page_table.map_to(page, frame, EntryFlags::empty(), &mut allocator).unwrap();

    page_table.unmap(Page::containing_address(addr), &mut allocator);
    assert!(page_table.translate(addr).is_none());
}

#[test]
fn directory_map_takes_the_next_frames_of_the_allocator() {
    let mut mapper = PageDirectoryMapper::new(Frame { number: 1 });
    let mut frames = allocator(30, 40);
    let page = Page { number: 7 };
    mapper.map(page, EntryFlags::writable(), &mut frames).unwrap();
    // the page gets frame 30, its page table frame 31
    assert_eq!(mapper.translate_page(page), Some(Frame { number: 30 }));
    assert_eq!(mapper.top_table(0).pointed_frame(), Some(Frame { number: 31 }));
    assert_eq!(frames.allocate_frame(), Some(Frame { number: 32 }));
    let mut empty = allocator(5, 5);
    assert_eq!(
        mapper.map(Page { number: 8 }, EntryFlags::writable(), &mut empty),
        Err(MapToError::FrameAllocationFailed)
    );
}

#[test]
fn first_mapping_creates_the_directory() {
    let mut mapper = PageDirectoryMapper::empty();
    assert!(!mapper.has_directory());
    assert_eq!(mapper.translate(0), None);
    let mut frames = allocator(10, 20);
    mapper.map(Page { number: 5 }, EntryFlags::writable(), &mut frames).unwrap();
    // frame 10 for the page, 11 for the directory, 12 for the page table
    assert!(mapper.has_directory());
    assert_eq!(mapper.top_table_frame(), 11);
    assert_eq!(mapper.translate_page(Page { number: 5 }), Some(Frame { number: 10 }));
    assert_eq!(mapper.top_table(0).pointed_frame(), Some(Frame { number: 12 }));
    assert_eq!(frames.allocate_frame(), Some(Frame { number: 13 }));
    // a second page under the same directory entry takes only its own frame
    mapper.map(Page { number: 6 }, EntryFlags::writable(), &mut frames).unwrap();
    assert_eq!(frames.allocate_frame(), Some(Frame { number: 15 }));
    let mut one = allocator(30, 31);
    let mut fresh = PageDirectoryMapper::empty();
    assert_eq!(
        fresh.map_to(Page { number: 5 }, Frame { number: 7 }, EntryFlags::writable(), &mut one),
        Err(MapToError::FrameAllocationFailed)
    );
}
