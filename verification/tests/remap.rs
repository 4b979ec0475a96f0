use rxinu::boot::{BootInformation, ElfSection};
use rxinu::memory::area_frame_allocator::{
    AreaFrameAllocator, FrameRange, MemoryRegion, MemoryRegionType,
};
use rxinu::memory::usable_frame_allocator::{init_frame_allocator, is_memory_map_sorted};
use rxinu::memory::{map_page, Frame, FrameAllocator};
use rxinu::paging::active::{
    kernel_mappings_of, remap_the_kernel, ActivePageTable, InactivePageTable,
};
use rxinu::paging::entry::{Entry, EntryFlags};
use rxinu::paging::mapper::{MapToError, PageMapLevel4Mapper};
use rxinu::paging::page::Page;
use rxinu::paging::physical::PhysicalMemory;

const P4_FRAME: u64 = 100;
const P3_FRAME: u64 = 101;
const P2_FRAME: u64 = 102;

fn allocator() -> AreaFrameAllocator {
    let map = vec![
        MemoryRegion {
            range: FrameRange { start_frame_number: 0, end_frame_number: 64 },
            region_type: MemoryRegionType::Usable,
        },
        MemoryRegion {
            range: FrameRange { start_frame_number: 64, end_frame_number: 128 },
            region_type: MemoryRegionType::PageTable,
        },
    ];
    AreaFrameAllocator::new(&map)
}

fn table_entry(frame_number: u64, flags: EntryFlags) -> Entry {
    let mut entry = Entry::unused();
    entry.set(Frame { number: frame_number }, flags);
    entry
}

/// The first GiB identity mapped with 2 MiB pages.
fn page_table() -> PageMapLevel4Mapper {
    let table_flags = EntryFlags::present().union(EntryFlags::writable());
    let huge_flags = table_flags.union(EntryFlags::huge_page());
    let mut memory = PhysicalMemory::new();
    memory.add_table(P4_FRAME, 4);
    memory.add_table(P3_FRAME, 3);
    memory.add_table(P2_FRAME, 2);
    memory.write_entry(P4_FRAME, 0, table_entry(P3_FRAME, table_flags));
    memory.write_entry(P3_FRAME, 0, table_entry(P2_FRAME, table_flags));
    for i in 0..512u64 {
        memory.write_entry(P2_FRAME, i as usize, table_entry(i * 512, huge_flags));
    }
    PageMapLevel4Mapper::new(memory, P4_FRAME)
}

/// A kernel image in frames 100 to 103 (holding the boot page tables), a section that is
/// not loaded, and boot information in frame 200.
fn boot_info() -> BootInformation {
    BootInformation {
        start_address: 200 * 4096,
        end_address: 200 * 4096 + 100,
        elf_sections: Some(vec![
            ElfSection { start_address: 100 * 4096, end_address: 102 * 4096, flags: 0x6 },
            ElfSection { start_address: 102 * 4096, end_address: 104 * 4096, flags: 0x3 },
            ElfSection { start_address: 300 * 4096, end_address: 301 * 4096, flags: 0x0 },
        ]),
    }
}

#[test]
fn kernel_mappings_list_sections_vga_and_boot_information() {
    let mappings = kernel_mappings_of(&boot_info());
    let frames: Vec<u64> = mappings.iter().map(|m| m.0).collect();
    assert_eq!(frames, vec![100, 101, 102, 103, 0xb8, 200]);
    // executable code: present, not writable, executable
    assert_eq!(mappings[0].1.bits(), 0x1);
    // data: present, writable, not executable
    assert_eq!(mappings[2].1.bits(), 0x8000_0000_0000_0003);
    // VGA buffer: writable; boot information: present
    assert_eq!(mappings[4].1.bits(), 0x2);
    assert_eq!(mappings[5].1.bits(), 0x1);
}

#[test]
fn remap_identity_maps_the_kernel_and_leaves_a_guard_page() {
    let mut allocator = allocator();
    let active = ActivePageTable::new(page_table());
    let remapped = remap_the_kernel(&mut allocator, &boot_info(), active).expect("remap");
    let mapper = remapped.mapper();
    // the new top table is the first frame of the allocator
    assert_eq!(mapper.top_table_frame(), 0);
    assert_eq!(remapped.address(), 0);
    // the page of the old top table is the guard page
    assert_eq!(mapper.translate(100 * 4096), None);
    for frame in [101u64, 102, 103, 0xb8, 200] {
        assert_eq!(mapper.translate(frame * 4096 + 8), Some(frame * 4096 + 8));
    }
    // nothing else is mapped: not the section that is not loaded, not the old huge pages
    assert_eq!(mapper.translate(300 * 4096), None);
    assert_eq!(mapper.translate(4096), None);
    assert_eq!(mapper.translate(104 * 4096), None);
}

#[test]
fn remap_without_frames_fails() {
    let map = vec![MemoryRegion {
        range: FrameRange { start_frame_number: 0, end_frame_number: 0 },
        region_type: MemoryRegionType::Usable,
    }];
    let mut allocator = AreaFrameAllocator::new(&map);
    let active = ActivePageTable::new(page_table());
    assert!(matches!(
        remap_the_kernel(&mut allocator, &boot_info(), active),
        Err(MapToError::FrameAllocationFailed)
    ));
}

#[test]
fn switch_makes_the_inactive_table_active() {
    let mut allocator = allocator();
    let mut active = ActivePageTable::new(page_table());
    let frame = allocator.allocate_frame().unwrap();
    let inactive = InactivePageTable::new(frame, &mut active);
    assert_eq!(inactive.frame().number, 0);
    let old = active.switch(inactive);
    assert_eq!(old.frame().number, P4_FRAME);
    assert_eq!(active.mapper().top_table_frame(), 0);
    assert_eq!(active.mapper().translate(4096), None);
}

#[test]
fn with_works_on_the_inactive_table() {
    let mut active = ActivePageTable::new(page_table());
    let mut inactive = InactivePageTable::new(Frame { number: 50 }, &mut active);
    active.with(&mut inactive, |mapper| {
        let mut allocator = allocator();
        mapper
            .map_to(Page { number: 7 }, Frame { number: 9 }, EntryFlags::empty(), &mut allocator)
            .unwrap();
    });
    // the active hierarchy is unchanged
    assert_eq!(active.mapper().top_table_frame(), P4_FRAME);
    assert_eq!(active.mapper().translate(7 * 4096), Some(7 * 4096));
    // the inactive one holds the new mapping
    active.switch(inactive);
    assert_eq!(active.mapper().translate(7 * 4096), Some(9 * 4096));
}

#[test]
fn map_page_maps_a_free_page_and_refuses_a_huge_one() {
    let mut mapper = page_table();
    let mut allocator = allocator();
    let page = Page { number: 5 * 512 * 512 };
    map_page(&mut mapper, page, EntryFlags::writable(), &mut allocator).unwrap();
    assert_eq!(mapper.translate(page.start_address()), Some(0));
    // a page inside the huge pages of the first GiB cannot be mapped
    assert_eq!(
        map_page(&mut mapper, Page { number: 3 }, EntryFlags::writable(), &mut allocator),
        Err(MapToError::PageUnavailable)
    );
    // a page that is mapped already cannot be mapped again
    assert_eq!(
        map_page(&mut mapper, page, EntryFlags::writable(), &mut allocator),
        Err(MapToError::PageUnavailable)
    );
}

#[test]
fn map_to_fails_when_the_allocator_is_empty() {
    let mut mapper = page_table();
    let map = vec![MemoryRegion {
        range: FrameRange { start_frame_number: 0, end_frame_number: 1 },
        region_type: MemoryRegionType::Usable,
    }];
    let mut allocator = AreaFrameAllocator::new(&map);
    // three new tables are needed, one frame is left
    assert_eq!(
        mapper.map_to(Page { number: 9 * 512 * 512 }, Frame { number: 3 }, EntryFlags::empty(), &mut allocator),
        Err(MapToError::FrameAllocationFailed)
    );
    assert_eq!(mapper.translate(9 * 512 * 512 * 4096), None);
}

#[test]
fn map_to_refuses_a_frame_that_holds_a_table() {
    let mut mapper = page_table();
    let map = vec![MemoryRegion {
        range: FrameRange { start_frame_number: P3_FRAME, end_frame_number: 110 },
        region_type: MemoryRegionType::Usable,
    }];
    let mut allocator = AreaFrameAllocator::new(&map);
    assert_eq!(
        mapper.map_to(Page { number: 9 * 512 * 512 }, Frame { number: 3 }, EntryFlags::empty(), &mut allocator),
        Err(MapToError::FrameInUse)
    );
}

#[test]
fn map_to_refuses_a_frame_beyond_the_address_range() {
    let mut mapper = page_table();
    let map = vec![MemoryRegion {
        range: FrameRange { start_frame_number: 1 << 40, end_frame_number: (1 << 40) + 4 },
        region_type: MemoryRegionType::Usable,
    }];
    let mut allocator = AreaFrameAllocator::new(&map);
    assert_eq!(
        mapper.map_to(Page { number: 9 * 512 * 512 }, Frame { number: 3 }, EntryFlags::empty(), &mut allocator),
        Err(MapToError::InvalidFrame)
    );
}

#[test]
fn unmap_gives_back_the_earlier_translations() {
    let mut mapper = page_table();
    let mut allocator = allocator();
    let page = Page { number: 11 * 512 * 512 + 3 };
    let neighbour = Page { number: 11 * 512 * 512 + 4 };
    mapper.map_to(neighbour, Frame { number: 60 }, EntryFlags::empty(), &mut allocator).unwrap();
    mapper.map_to(page, Frame { number: 61 }, EntryFlags::empty(), &mut allocator).unwrap();
    assert_eq!(mapper.translate(page.start_address()), Some(61 * 4096));
    mapper.unmap(page, &mut allocator);
    assert_eq!(mapper.translate(page.start_address()), None);
    assert_eq!(mapper.translate(neighbour.start_address()), Some(60 * 4096));
    assert_eq!(mapper.translate(4096), Some(4096));
}

#[test]
fn usable_frames_come_region_after_region() {
    let map = vec![
        MemoryRegion {
            range: FrameRange { start_frame_number: 5, end_frame_number: 7 },
            region_type: MemoryRegionType::Usable,
        },
        MemoryRegion {
            range: FrameRange { start_frame_number: 7, end_frame_number: 9 },
            region_type: MemoryRegionType::Reserved,
        },
        MemoryRegion {
            range: FrameRange { start_frame_number: 10, end_frame_number: 12 },
            region_type: MemoryRegionType::Usable,
        },
    ];
    let mut allocator = init_frame_allocator(&map);
    let mut got = Vec::new();
    while let Some(frame) = allocator.allocate_frame() {
        got.push(frame.number);
    }
    assert_eq!(got, vec![5, 6, 10, 11]);
    assert!(allocator.allocate_frame().is_none());
}

#[test]
fn memory_maps_are_sorted_and_hold_no_empty_region() {
    let region = |start, end| MemoryRegion {
        range: FrameRange { start_frame_number: start, end_frame_number: end },
        region_type: MemoryRegionType::Usable,
    };
    assert!(is_memory_map_sorted(&vec![]));
    assert!(is_memory_map_sorted(&vec![region(1, 3), region(1, 4), region(5, 6)]));
    assert!(!is_memory_map_sorted(&vec![region(5, 6), region(1, 3)]));
    assert!(!is_memory_map_sorted(&vec![region(1, 4), region(1, 3)]));
    assert!(!is_memory_map_sorted(&vec![region(1, 3), region(4, 4)]));
}
