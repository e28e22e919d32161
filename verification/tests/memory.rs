//! Paging: the kernel window, user mappings, the temporary page, and the
//! region checks.

use kernel_core::{
    boot_kernel, create_initial_pagedir, init_paging, map_user_page, Frame, FrameAllocator,
    InitFileSystem, KernelDataBounds, MemoryRegions, SystemError, TemporaryPage,
};

fn allocator() -> FrameAllocator {
    let mut a = FrameAllocator::new();
    a.init(0x100_0000, 0x10_0000);
    a
}

#[test]
fn initial_directory_is_self_mapped_and_otherwise_empty() {
    let mut a = allocator();
    let d = create_initial_pagedir(&mut a).unwrap();
    let top = d.table.get(0x3ff);
    assert!(top.is_present());
    assert_eq!(top.get_address(), d.get_address());
    for slot in 0..0x3ff {
        assert!(!d.table.get(slot).is_present());
    }
}

#[test]
fn kernel_window_maps_the_image_read_execute() {
    let bounds = KernelDataBounds { ro_start: 0x10_0000, rw_end: 0x20_0000, stack_start: 0x9_f000 };
    let k = boot_kernel(0x100_0000, 0x10_0000, 0xc040_0000, &bounds, InitFileSystem::new(Vec::new()))
        .unwrap();
    let dir = &k.processes.processes[0].page_directory;
    // One 4 MiB chunk covers the image, so slot 0x300 and the stack slot
    // 0x3fe are filled.
    assert!(dir.table.get(0x300).is_present());
    assert!(dir.table.get(0x3fe).is_present());
    assert_eq!(k.kernel_tables.len(), 2);
    let window = &k.kernel_tables[0];
    assert_eq!(window.slot, 0x300);
    // The page at physical 0x10_0000 is mapped at its own address, not
    // writable, not user-accessible.
    let e = window.table.get(0x100);
    assert!(e.is_present());
    assert_eq!(e.get_address(), 0x10_0000);
    assert!(!e.writable);
    assert!(!e.user);
    // Below the image nothing is mapped; past its end nothing is mapped.
    assert!(!window.table.get(0x0ff).is_present());
    assert!(!window.table.get(0x200).is_present());
    // The stack table maps the stack page read-write.
    let stack = &k.kernel_tables[1];
    assert_eq!(stack.slot, 0x3fe);
    let se = stack.table.get(0x3fe);
    assert!(se.is_present());
    assert!(se.writable);
    assert_eq!(se.get_address(), 0x9_f000);
}

#[test]
fn user_pages_map_only_inside_regions() {
    let mut a = allocator();
    let mut d = create_initial_pagedir(&mut a).unwrap();
    let regions = MemoryRegions::initial(0xc040_0000);
    let frame = a.allocate().unwrap();
    // Inside the user stack region.
    assert_eq!(map_user_page(&mut d, &mut a, &regions, 0xbfff_e000, frame, true), Ok(()));
    // A second page of the same slot reuses the same private table.
    let frame2 = a.allocate().unwrap();
    let tables_before = d.user_tables.len();
    assert_eq!(map_user_page(&mut d, &mut a, &regions, 0xbfff_f000, frame2, true), Ok(()));
    assert_eq!(d.user_tables.len(), tables_before);
    // Outside every region the mapping is refused.
    let frame3 = a.allocate().unwrap();
    assert_eq!(
        map_user_page(&mut d, &mut a, &regions, 0x1000_0000, frame3, false),
        Err(SystemError::BadAddress)
    );
}

#[test]
fn temporary_page_holds_one_frame_at_a_time() {
    let mut t = TemporaryPage::new();
    assert!(t.mapped.is_none());
    t.map_frame_to_temporary_page(Frame::new(0x5000));
    assert_eq!(t.mapped.unwrap().get_address(), 0x5000);
    t.map_frame_to_temporary_page(Frame::new(0x7000));
    assert_eq!(t.mapped.unwrap().get_address(), 0x7000);
    assert_eq!(t.get_temporary_page_address(), kernel_core::TEMPORARY_PAGE_ADDRESS);
}

#[test]
fn editing_the_stack_frame_allocates_it_once() {
    let bounds = KernelDataBounds { ro_start: 0x10_0000, rw_end: 0x20_0000, stack_start: 0x9_f000 };
    let mut k = boot_kernel(0x100_0000, 0x10_0000, 0xc040_0000, &bounds, InitFileSystem::new(Vec::new()))
        .unwrap();
    let mut temp = TemporaryPage::new();
    let free_before = k.allocator.count_free_frames();
    // The hand-constructed idle task has no stack frame of its own yet.
    let p = &mut k.processes.processes[0];
    assert!(p.stack_frame.is_none());
    p.make_current_stack_frame_editable(&mut k.allocator, &mut temp).unwrap();
    let frame = p.stack_frame.unwrap();
    assert_eq!(temp.mapped.unwrap().get_address(), frame.get_address());
    assert_eq!(k.allocator.count_free_frames(), free_before - 1);
    // A second edit reuses the same frame.
    p.make_current_stack_frame_editable(&mut k.allocator, &mut temp).unwrap();
    assert_eq!(p.stack_frame.unwrap().get_address(), frame.get_address());
    assert_eq!(k.allocator.count_free_frames(), free_before - 1);
}

#[test]
fn region_checks_respect_permissions() {
    let regions = MemoryRegions::initial(0xc040_0000);
    // The user stack is copy-on-write: readable and writable.
    assert!(regions.check_user_range(0xbfff_e000, 0x100, false));
    assert!(regions.check_user_range(0xbfff_e000, 0x100, true));
    // The whole region, but not one byte more.
    assert!(regions.check_user_range(0xbfff_e000, 0x2000, false));
    assert!(!regions.check_user_range(0xbfff_e000, 0x2001, false));
    // Unmapped space is rejected.
    assert!(!regions.check_user_range(0x4000, 4, false));
    // The kernel stack region is read-only.
    assert!(regions.check_user_range(0xffbf_e000, 4, false));
    assert!(!regions.check_user_range(0xffbf_e000, 4, true));
}

#[test]
fn region_lookup_finds_the_containing_range() {
    let regions = MemoryRegions::initial(0xc040_0000);
    let r = regions.get_range_containing_address(0xbfff_ffff).unwrap();
    assert_eq!(r.start, 0xbfff_e000);
    assert_eq!(r.size, 0x2000);
    assert!(regions.get_range_containing_address(0x1234).is_none());
    let heap = regions.get_range_containing_address(0xc040_0000).unwrap();
    assert_eq!(heap.start, 0xc040_0000);
}

#[test]
fn first_paging_setup_identity_maps_what_is_occupied() {
    // Four hundred frames, the first 0x120 pre-marked for the kernel image.
    let mut a = FrameAllocator::new();
    a.init(0x19_0000, 0x12_0000);
    let (dir, identity) = init_paging(&mut a).unwrap();
    assert_eq!(identity.slot, 0);
    assert!(dir.table.get(0).is_present());
    assert_eq!(dir.table.get(0).get_address(), identity.frame.get_address());
    assert_eq!(dir.table.get(0x3ff).get_address(), dir.get_address());
    // The first megabyte is always mapped, at its own address.
    assert!(identity.table.get(0).is_present());
    assert_eq!(identity.table.get(0xff).get_address(), 0xff000);
    // Kernel frames are mapped; the free frames beyond are not.
    assert!(identity.table.get(0x11f).is_present());
    assert!(!identity.table.get(0x150).is_present());
    // Frames past the tracked range are unmapped too.
    assert!(!identity.table.get(0x3ff).is_present());
}
