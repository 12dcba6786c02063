use roxy_kernel::address::{align_down, align_up, PhysicalAddress, UserAddress, UserPage, VirtualAddress};
use roxy_kernel::memory::frames::{validate_range, write_access, FrameAccessError, OwnedFrame, PhysicalFrameAllocator};
use roxy_kernel::memory::map::{
    address_reserved, collect_regions, BootInfo, BootMemoryRegion, Framebuffer, MemoryMap, MemoryRegion,
    MemoryRegionKind,
};
use roxy_kernel::memory::stats::{statistics, AttemptCounter};
use roxy_kernel::memory::tlb::{flush_plan, range_pages, TlbFlush, TlbInvalidation};
use roxy_kernel::paging::{
    decode_user_permissions, flag_error, map_error, page_table_flags, unmap_error, user_page_flags,
    FlagUpdateFailure, MapFailure, MappingError, PagePermissions, UnmapFailure, MAPPING_EXECUTABLE,
    MAPPING_USER, MAPPING_WRITABLE, PTE_NO_EXECUTE, PTE_PRESENT, PTE_USER_ACCESSIBLE, PTE_WRITABLE,
};

fn boot(base: u64, length: u64, kind: MemoryRegionKind) -> BootMemoryRegion {
    BootMemoryRegion { base, length, kind }
}

fn region(start: u64, end: u64, kind: MemoryRegionKind) -> MemoryRegion {
    MemoryRegion { start, end, kind }
}

#[test]
fn usable_memory_shrinks_and_reserved_memory_grows_to_pages() {
    let regions = collect_regions(&[
        boot(0x1100, 0x3000, MemoryRegionKind::Usable),
        boot(0x8800, 0x100, MemoryRegionKind::Reserved),
        boot(0x10000, 0x800, MemoryRegionKind::Usable),
    ]);
    assert_eq!(
        regions,
        vec![region(0x2000, 0x4000, MemoryRegionKind::Usable), region(0x8000, 0x9000, MemoryRegionKind::Reserved)]
    );
}

#[test]
fn reserved_memory_wins_over_usable_memory() {
    let map = MemoryMap::from_regions(&[
        boot(0x1000, 0x8000, MemoryRegionKind::Usable),
        boot(0x8800, 0x100, MemoryRegionKind::Reserved),
        boot(0x9000, 0x1000, MemoryRegionKind::Usable),
        boot(0xA000, 0x1000, MemoryRegionKind::Usable),
        boot(0x20000, 0x1000, MemoryRegionKind::AcpiNvs),
    ]);
    assert_eq!(
        map.regions,
        vec![
            region(0x1000, 0x8000, MemoryRegionKind::Usable),
            region(0x8000, 0x9000, MemoryRegionKind::Reserved),
            region(0x9000, 0xB000, MemoryRegionKind::Usable),
            region(0x20000, 0x21000, MemoryRegionKind::AcpiNvs),
        ]
    );
    assert!(address_reserved(&map.regions, 0x8fff));
    assert!(!address_reserved(&map.regions, 0x9000));
    assert!(!address_reserved(&map.regions, 0x30000));
}

#[test]
fn boot_info_validation_checks_reserved_placement() {
    let info = BootInfo {
        memory_regions: vec![
            boot(0x0, 0x100000, MemoryRegionKind::Usable),
            boot(0x100000, 0x200000, MemoryRegionKind::KernelAndModules),
            boot(0xE0000, 0x1000, MemoryRegionKind::AcpiReclaimable),
            boot(0xFD000000, 0x300000, MemoryRegionKind::Framebuffer),
        ],
        kernel_physical_base: 0x100000,
        rsdp_address: 0xE0010,
        framebuffers: vec![Framebuffer { address: 0xFD000000, pitch: 0x1000, height: 0x300 }],
    };
    let (map, valid) = MemoryMap::from_boot_info(&info);
    assert!(valid);
    assert_eq!(map.regions.len(), 5);

    let misplaced = BootInfo { rsdp_address: 0x5000, ..info };
    let (_, valid) = MemoryMap::from_boot_info(&misplaced);
    assert!(!valid);
}

#[test]
fn frames_are_never_handed_out_twice() {
    let mut frames = PhysicalFrameAllocator::from_regions(&[
        region(0x1000, 0x4000, MemoryRegionKind::Usable),
        region(0x4000, 0x5000, MemoryRegionKind::Reserved),
    ]);
    assert_eq!(frames.statistics(), (3, 0));
    let mut handed_out = Vec::new();
    while let Some(frame) = frames.allocate() {
        assert!(!handed_out.contains(&frame));
        assert!((1..4).contains(&frame));
        handed_out.push(frame);
    }
    assert_eq!(handed_out.len(), 3);
    assert_eq!(frames.statistics(), (3, 3));
    frames.deallocate(handed_out[1]);
    assert_eq!(frames.statistics(), (3, 2));
    assert_eq!(frames.allocate(), Some(handed_out[1]));
}

#[test]
fn returning_a_frame_restores_the_allocator() {
    let mut frames = PhysicalFrameAllocator::from_regions(&[region(0x2000, 0x4000, MemoryRegionKind::Usable)]);
    let frame = frames.allocate().expect("a free frame");
    assert_eq!(frames.statistics(), (2, 1));
    frames.deallocate(frame);
    assert_eq!(frames.statistics(), (2, 0));
    let mut again = vec![frames.allocate().unwrap(), frames.allocate().unwrap()];
    again.sort();
    assert_eq!(again, vec![2, 3]);
    assert_eq!(frames.allocate(), None);
}

#[test]
fn empty_allocator_has_nothing_to_give() {
    let mut frames = PhysicalFrameAllocator::new();
    assert_eq!(frames.allocate(), None);
    frames.add_region(region(0x3000, 0x4fff, MemoryRegionKind::Usable));
    assert_eq!(frames.statistics(), (1, 0));
    assert_eq!(frames.allocate(), Some(3));
}

#[test]
fn frame_handles_know_their_address() {
    let frame = OwnedFrame::new(5);
    assert_eq!(frame.frame(), 5);
    assert_eq!(frame.start_address().as_u64(), 0x5000);
    let page = frame.into_page_ref();
    assert_eq!(page.frame(), 5);
    assert_eq!(page.start_address().as_u64(), 0x5000);
}

#[test]
fn frame_ranges_must_fit_the_frame() {
    assert_eq!(validate_range(0, 4096), Ok(()));
    assert_eq!(validate_range(4000, 96), Ok(()));
    assert_eq!(validate_range(4000, 97), Err(FrameAccessError::OutOfBounds));
    assert_eq!(validate_range(usize::MAX, 2), Err(FrameAccessError::OutOfBounds));
}

#[test]
fn statistics_report_counters() {
    let stats = statistics((10, 4, 7), (4096, 100, 128, 3));
    assert_eq!(stats.total_frames, 10);
    assert_eq!(stats.allocated_frames, 4);
    assert_eq!(stats.frame_allocation_attempts, 7);
    assert_eq!(stats.heap_total_bytes, 4096);
    assert_eq!(stats.heap_requested_bytes, 100);
    assert_eq!(stats.heap_allocated_bytes, 128);
    assert_eq!(stats.heap_allocation_attempts, 3);
    assert_eq!(stats.free_frames(), 6);
}

#[test]
fn tlb_ranges_flush_each_page() {
    let start = VirtualAddress::new(0x40_0000).unwrap();
    let pages = range_pages(start, 3);
    let values: Vec<u64> = pages.iter().map(|p| p.as_u64()).collect();
    assert_eq!(values, vec![0x40_0000, 0x40_1000, 0x40_2000]);
    match flush_plan(TlbInvalidation::Page(start)) {
        TlbFlush::Pages(pages) => assert_eq!(pages, vec![start]),
        TlbFlush::All => panic!("one page expected"),
    }
    match flush_plan(TlbInvalidation::Range { start, page_count: 2 }) {
        TlbFlush::Pages(pages) => assert_eq!(pages.len(), 2),
        TlbFlush::All => panic!("pages expected"),
    }
    assert!(matches!(flush_plan(TlbInvalidation::All), TlbFlush::All));
}

#[test]
fn addresses_are_checked() {
    assert!(VirtualAddress::new(0x0000_8000_0000_0000).is_none());
    assert!(VirtualAddress::new(0xffff_8000_0000_0000).is_some());
    assert!(PhysicalAddress::new(1 << 52).is_none());
    assert_eq!(PhysicalAddress::new(0x1000).unwrap().checked_add(0x10).unwrap().as_u64(), 0x1010);
    assert!(UserAddress::new(0x1000).is_none());
    let user = UserAddress::new(0x20_0000).unwrap();
    assert_eq!(UserPage::new(user).unwrap().start_address(), user);
    assert!(UserPage::new(UserAddress::new(0x20_0010).unwrap()).is_none());
    assert_eq!(align_down(0x1fff), 0x1000);
    assert_eq!(align_up(0x1001), Some(0x2000));
    assert_eq!(align_up(u64::MAX), None);
    assert!(VirtualAddress::new(0x1000).unwrap() < VirtualAddress::new(0x2000).unwrap());
    assert!(PhysicalAddress::new(0x3000).unwrap() > PhysicalAddress::new(0x2000).unwrap());
}

#[test]
fn user_permissions_round_trip_and_keep_w_xor_x() {
    for permissions in [PagePermissions::ReadOnly, PagePermissions::ReadWrite, PagePermissions::ReadExecute] {
        let flags = user_page_flags(permissions);
        assert_eq!(decode_user_permissions(flags), Ok(permissions));
        assert!(flags & PTE_WRITABLE == 0 || flags & PTE_NO_EXECUTE != 0);
    }
    assert_eq!(
        user_page_flags(PagePermissions::ReadExecute),
        PTE_PRESENT | PTE_USER_ACCESSIBLE
    );
    assert_eq!(decode_user_permissions(PTE_PRESENT), Err(MappingError::InvalidHierarchy));
    assert_eq!(
        decode_user_permissions(PTE_PRESENT | PTE_USER_ACCESSIBLE | PTE_WRITABLE),
        Err(MappingError::InvalidHierarchy)
    );
}

#[test]
fn kernel_mapping_flags() {
    assert_eq!(page_table_flags(0), PTE_PRESENT | PTE_NO_EXECUTE);
    assert_eq!(
        page_table_flags(MAPPING_WRITABLE | MAPPING_EXECUTABLE | MAPPING_USER),
        PTE_PRESENT | PTE_WRITABLE | PTE_USER_ACCESSIBLE
    );
}

#[test]
fn walker_failures_map_to_mapping_errors() {
    assert_eq!(map_error(MapFailure::FrameAllocationFailed), MappingError::OutOfMemory);
    assert_eq!(map_error(MapFailure::PageAlreadyMapped), MappingError::AlreadyMapped);
    assert_eq!(map_error(MapFailure::ParentEntryHugePage), MappingError::InvalidHierarchy);
    assert_eq!(unmap_error(UnmapFailure::PageNotMapped), MappingError::NotMapped);
    assert_eq!(unmap_error(UnmapFailure::InvalidFrameAddress), MappingError::InvalidHierarchy);
    assert_eq!(flag_error(FlagUpdateFailure::PageNotMapped), MappingError::NotMapped);
}

#[test]
fn shared_pages_refuse_writes() {
    assert_eq!(write_access(true, 0, 1), Err(FrameAccessError::Shared));
    assert_eq!(write_access(true, 4096, 1), Err(FrameAccessError::Shared));
    assert_eq!(write_access(false, 4095, 1), Ok(()));
    assert_eq!(write_access(false, 4095, 2), Err(FrameAccessError::OutOfBounds));
}

#[test]
fn released_handles_return_their_frames() {
    let mut frames = PhysicalFrameAllocator::from_regions(&[region(0x1000, 0x3000, MemoryRegionKind::Usable)]);
    let owned = OwnedFrame::new(frames.allocate().unwrap());
    let page = OwnedFrame::new(frames.allocate().unwrap()).into_page_ref();
    assert_eq!(frames.statistics(), (2, 2));
    frames.release_frame(owned);
    assert_eq!(frames.statistics(), (2, 1));
    frames.release_page(page);
    assert_eq!(frames.statistics(), (2, 0));
    assert!(frames.allocate().is_some());
    assert!(frames.allocate().is_some());
    assert_eq!(frames.allocate(), None);
}

#[test]
fn allocation_attempts_are_counted() {
    let mut frames = PhysicalFrameAllocator::from_regions(&[region(0x1000, 0x2000, MemoryRegionKind::Usable)]);
    assert_eq!(frames.allocation_attempts(), 0);
    assert!(frames.allocate().is_some());
    assert_eq!(frames.allocate(), None);
    assert_eq!(frames.allocation_attempts(), 2);
    assert_eq!(frames.statistics(), (1, 1));
    let mut counter = AttemptCounter::new();
    counter.record();
    counter.record();
    assert_eq!(counter.count(), 2);
}
