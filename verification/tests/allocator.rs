use rkbpf::frames::{PhysFrame, Size1GiB, Size2MiB, Size4KiB};
use rkbpf::pmm::{PhysicalFrameAllocator, PhysicalMemoryManager};
use rkbpf::region::{FrameState, MemoryRegion};

#[test]
fn lib_test_new() {
    let states = vec![
        FrameState::Free,
        FrameState::Allocated,
        FrameState::Unusable,
        FrameState::Free,
    ];
    let region = MemoryRegion::with_frames(0, states.clone());
    let pmm = PhysicalMemoryManager::new(vec![region]);
    assert_eq!(1, pmm.region_list().len());
    assert_eq!(4, pmm.region_list()[0].len());
    assert_eq!(&states[..], pmm.region_list()[0].frames().as_slice());
}

#[test]
fn test_new_trailing_unusable() {
    let states = vec![FrameState::Unusable, FrameState::Free, FrameState::Unusable];
    let region = MemoryRegion::with_frames(0, states.clone());
    let pmm = PhysicalMemoryManager::new(vec![region]);
    assert_eq!(1, pmm.region_list().len());
    assert_eq!(3, pmm.region_list()[0].len());
    assert_eq!(&states[..], pmm.region_list()[0].frames().as_slice());
}

#[test]
fn test_new_no_frames() {
    let pmm = PhysicalMemoryManager::new(vec![]);
    assert!(pmm.region_list().is_empty());
}

#[test]
fn test_allocate_deallocate_4kib() {
    let region = MemoryRegion::new(0, 4, FrameState::Free);
    let mut pmm = PhysicalMemoryManager::new(vec![region]);
    assert_eq!(1, pmm.region_list().len());
    assert_eq!(4, pmm.region_list()[0].len());
    let frame1: PhysFrame<Size4KiB> = pmm.allocate_frame().unwrap();
    let frame2: PhysFrame<Size4KiB> = pmm.allocate_frame().unwrap();
    let frame3: PhysFrame<Size4KiB> = pmm.allocate_frame().unwrap();
    let frame4: PhysFrame<Size4KiB> = pmm.allocate_frame().unwrap();
    assert_eq!(Option::<PhysFrame<Size4KiB>>::None, pmm.allocate_frame());

    assert_eq!(Some(frame2), pmm.deallocate_frame(frame2));
    assert_eq!(None, pmm.deallocate_frame(frame2));

    assert_eq!(Some(frame4), pmm.deallocate_frame(frame4));
    assert_eq!(Some(frame2), pmm.allocate_frame());

    assert_eq!(Some(frame1), pmm.deallocate_frame(frame1));
    assert_eq!(Some(frame3), pmm.deallocate_frame(frame3));

    assert_eq!(Some(frame2), pmm.deallocate_frame(frame2));
    assert_eq!(1, pmm.region_list().len());
    assert_eq!(4, pmm.region_list()[0].len());
}

#[test]
fn test_allocate_deallocate_2mib() {
    let region = MemoryRegion::new(0, 1024, FrameState::Free);
    let mut pmm = PhysicalMemoryManager::new(vec![region]);
    let small_frame1: PhysFrame<Size4KiB> = pmm.allocate_frame().unwrap();

    let frame1: PhysFrame<Size2MiB> = pmm.allocate_frame().unwrap();
    assert_eq!(512 * 4096, frame1.start_address().as_u64());

    assert_eq!(Option::<PhysFrame<Size2MiB>>::None, pmm.allocate_frame());
    let small_frame2: PhysFrame<Size4KiB> = pmm.allocate_frame().unwrap();

    assert_eq!(Some(small_frame1), pmm.deallocate_frame(small_frame1));
    assert_eq!(Some(frame1), pmm.deallocate_frame(frame1));
    assert_eq!(Some(small_frame2), pmm.deallocate_frame(small_frame2));
}

#[test]
fn test_allocate_deallocate_1gib() {
    let region = MemoryRegion::new(0, 512 * 512 * 2, FrameState::Free);
    let mut pmm = PhysicalMemoryManager::new(vec![region]);
    let small_frame1: PhysFrame<Size4KiB> = pmm.allocate_frame().unwrap();

    let frame1: PhysFrame<Size1GiB> = pmm.allocate_frame().unwrap();
    assert_eq!(1024 * 1024 * 1024, frame1.start_address().as_u64());

    assert_eq!(Option::<PhysFrame<Size1GiB>>::None, pmm.allocate_frame());
    let small_frame2: PhysFrame<Size4KiB> = pmm.allocate_frame().unwrap();

    assert_eq!(Some(small_frame1), pmm.deallocate_frame(small_frame1));
    assert_eq!(Some(frame1), pmm.deallocate_frame(frame1));
    assert_eq!(Some(small_frame2), pmm.deallocate_frame(small_frame2));
}

#[test]
fn test_sparse_multiple_regions() {
    let region1 = MemoryRegion::new(0x0000_0000, 4, FrameState::Free);
    let region2 = MemoryRegion::new(0x1000_0000, 4, FrameState::Free);
    let pmm = PhysicalMemoryManager::new(vec![region1, region2]);

    assert_eq!(2, pmm.region_list().len());
    assert_eq!(4, pmm.region_list()[0].len());
    assert_eq!(4, pmm.region_list()[1].len());
    assert_eq!(0x0000_0000, pmm.region_list()[0].base_addr());
    assert_eq!(0x1000_0000, pmm.region_list()[1].base_addr());
}

#[test]
fn test_sparse_allocate_deallocate() {
    let region1 = MemoryRegion::new(0x0000_0000, 4, FrameState::Free);
    let region2 = MemoryRegion::new(0x1000_0000, 4, FrameState::Free);
    let mut pmm = PhysicalMemoryManager::new(vec![region1, region2]);

    let frame1: PhysFrame<Size4KiB> = PhysicalFrameAllocator::allocate_frame(&mut pmm).unwrap();
    assert_eq!(0x0000, frame1.start_address().as_u64());

    let frame2: PhysFrame<Size4KiB> = PhysicalFrameAllocator::allocate_frame(&mut pmm).unwrap();
    assert_eq!(0x1000, frame2.start_address().as_u64());

    assert_eq!(Some(frame1), pmm.deallocate_frame(frame1));
    let frame3: PhysFrame<Size4KiB> = PhysicalFrameAllocator::allocate_frame(&mut pmm).unwrap();
    assert_eq!(frame1.start_address(), frame3.start_address());
}

#[test]
fn test_sparse_with_preallocated_frames() {
    let mut region = MemoryRegion::new(0x0000_0000, 8, FrameState::Free);
    region.set_frame(1, FrameState::Allocated);
    region.set_frame(3, FrameState::Allocated);
    region.set_frame(5, FrameState::Allocated);

    let mut pmm = PhysicalMemoryManager::new(vec![region]);

    let frame1: PhysFrame<Size4KiB> = PhysicalFrameAllocator::allocate_frame(&mut pmm).unwrap();
    assert_eq!(0x0000, frame1.start_address().as_u64());

    let frame2: PhysFrame<Size4KiB> = PhysicalFrameAllocator::allocate_frame(&mut pmm).unwrap();
    assert_eq!(0x2000, frame2.start_address().as_u64());
}

#[test]
fn test_first_free_maintained_on_allocate() {
    let region = MemoryRegion::new(0, 10, FrameState::Free);
    let mut pmm = PhysicalMemoryManager::new(vec![region]);

    assert_eq!(pmm.first_free().unwrap().region_idx, 0);
    assert_eq!(pmm.first_free().unwrap().frame_idx, 0);

    let _frame1: PhysFrame<Size4KiB> = pmm.allocate_frame().unwrap();

    assert_eq!(pmm.first_free().unwrap().region_idx, 0);
    assert_eq!(pmm.first_free().unwrap().frame_idx, 1);

    let _frame2: PhysFrame<Size4KiB> = pmm.allocate_frame().unwrap();

    assert_eq!(pmm.first_free().unwrap().region_idx, 0);
    assert_eq!(pmm.first_free().unwrap().frame_idx, 2);
}

#[test]
fn test_first_free_maintained_on_deallocate() {
    let region = MemoryRegion::new(0, 10, FrameState::Free);
    let mut pmm = PhysicalMemoryManager::new(vec![region]);

    let frame1: PhysFrame<Size4KiB> = pmm.allocate_frame().unwrap();
    let frame2: PhysFrame<Size4KiB> = pmm.allocate_frame().unwrap();
    let frame3: PhysFrame<Size4KiB> = pmm.allocate_frame().unwrap();

    assert_eq!(pmm.first_free().unwrap().frame_idx, 3);

    pmm.deallocate_frame(frame2).unwrap();
    assert_eq!(pmm.first_free().unwrap().frame_idx, 1);

    pmm.deallocate_frame(frame1).unwrap();
    assert_eq!(pmm.first_free().unwrap().frame_idx, 0);

    pmm.deallocate_frame(frame3).unwrap();
    assert_eq!(pmm.first_free().unwrap().frame_idx, 0);
}

#[test]
fn test_first_free_all_frames_allocated() {
    let region = MemoryRegion::new(0, 3, FrameState::Free);
    let mut pmm = PhysicalMemoryManager::new(vec![region]);

    let _frame1: PhysFrame<Size4KiB> = pmm.allocate_frame().unwrap();
    let _frame2: PhysFrame<Size4KiB> = pmm.allocate_frame().unwrap();
    let _frame3: PhysFrame<Size4KiB> = pmm.allocate_frame().unwrap();

    assert!(pmm.first_free().is_none());

    let result: Option<PhysFrame<Size4KiB>> = PhysicalFrameAllocator::allocate_frame(&mut pmm);
    assert!(result.is_none());
}

#[test]
fn test_first_free_across_regions() {
    let region1 = MemoryRegion::new(0x0000_0000, 2, FrameState::Free);
    let region2 = MemoryRegion::new(0x1000_0000, 2, FrameState::Free);
    let mut pmm = PhysicalMemoryManager::new(vec![region1, region2]);

    assert_eq!(pmm.first_free().unwrap().region_idx, 0);
    assert_eq!(pmm.first_free().unwrap().frame_idx, 0);

    let _frame1: PhysFrame<Size4KiB> = pmm.allocate_frame().unwrap();
    let _frame2: PhysFrame<Size4KiB> = pmm.allocate_frame().unwrap();

    assert_eq!(pmm.first_free().unwrap().region_idx, 1);
    assert_eq!(pmm.first_free().unwrap().frame_idx, 0);

    let _frame3: PhysFrame<Size4KiB> = pmm.allocate_frame().unwrap();

    assert_eq!(pmm.first_free().unwrap().region_idx, 1);
    assert_eq!(pmm.first_free().unwrap().frame_idx, 1);
}

#[test]
fn test_first_free_deallocate_to_earlier_region() {
    let region1 = MemoryRegion::new(0x0000_0000, 2, FrameState::Free);
    let region2 = MemoryRegion::new(0x1000_0000, 2, FrameState::Free);
    let mut pmm = PhysicalMemoryManager::new(vec![region1, region2]);

    let frame1: PhysFrame<Size4KiB> = pmm.allocate_frame().unwrap();
    let frame2: PhysFrame<Size4KiB> = pmm.allocate_frame().unwrap();
    let _frame3: PhysFrame<Size4KiB> = pmm.allocate_frame().unwrap();

    assert_eq!(pmm.first_free().unwrap().region_idx, 1);

    pmm.deallocate_frame(frame1).unwrap();
    assert_eq!(pmm.first_free().unwrap().region_idx, 0);
    assert_eq!(pmm.first_free().unwrap().frame_idx, 0);

    pmm.deallocate_frame(frame2).unwrap();
    assert_eq!(pmm.first_free().unwrap().region_idx, 0);
    assert_eq!(pmm.first_free().unwrap().frame_idx, 0);
}

#[test]
fn test_allocate_2mib_with_misaligned_first_free() {
    let region = MemoryRegion::new(0, 1024, FrameState::Free);
    let mut pmm = PhysicalMemoryManager::new(vec![region]);

    let small_frame: PhysFrame<Size4KiB> = pmm.allocate_frame().unwrap();
    assert_eq!(0, small_frame.start_address().as_u64());

    assert_eq!(pmm.first_free().unwrap().frame_idx, 1);

    let large_frame: PhysFrame<Size2MiB> = pmm.allocate_frame().unwrap();
    assert_eq!(512 * 4096, large_frame.start_address().as_u64());

    let small_frame2: PhysFrame<Size4KiB> = pmm.allocate_frame().unwrap();
    assert_eq!(4096, small_frame2.start_address().as_u64());
}

#[test]
fn test_allocate_2mib_from_misaligned_region() {
    let region = MemoryRegion::new(0x1000, 1024, FrameState::Free);
    let mut pmm = PhysicalMemoryManager::new(vec![region]);

    let large_frame: PhysFrame<Size2MiB> = pmm.allocate_frame().unwrap();
    assert_eq!(0x200000, large_frame.start_address().as_u64());

    let small_frame: PhysFrame<Size4KiB> = pmm.allocate_frame().unwrap();
    assert_eq!(0x1000, small_frame.start_address().as_u64());
}

#[test]
fn test_allocate_1gib_from_misaligned_region() {
    let frames_before_aligned = (0x40000000u64 - 0x200000) / 4096;
    let frames_for_1gib = (1024u64 * 1024 * 1024) / 4096;
    let total_frames = frames_before_aligned + frames_for_1gib;

    let region = MemoryRegion::new(0x200000, total_frames as usize, FrameState::Free);
    let mut pmm = PhysicalMemoryManager::new(vec![region]);

    let large_frame: PhysFrame<Size1GiB> = pmm.allocate_frame().unwrap();
    assert_eq!(0x40000000, large_frame.start_address().as_u64());

    let small_frame: PhysFrame<Size4KiB> = pmm.allocate_frame().unwrap();
    assert_eq!(0x200000, small_frame.start_address().as_u64());
}

#[test]
fn test_allocate_2mib_from_perfectly_aligned_region() {
    let region = MemoryRegion::new(0x200000, 1024, FrameState::Free);
    let mut pmm = PhysicalMemoryManager::new(vec![region]);

    let large_frame: PhysFrame<Size2MiB> = pmm.allocate_frame().unwrap();
    assert_eq!(0x200000, large_frame.start_address().as_u64());
}

#[test]
fn allocator_alignment_from_zero() {
    // From a single region of 1024 Free frames at address 0: a 4 KiB frame
    // lands at 0, a 2 MiB frame at 0x200000 (frame index 512), and the next
    // 4 KiB frame at 0x1000.
    let region = MemoryRegion::new(0, 1024, FrameState::Free);
    let mut pmm = PhysicalMemoryManager::new(vec![region]);
    let f1: PhysFrame<Size4KiB> = pmm.allocate_frame().unwrap();
    assert_eq!(0, f1.start_address().as_u64());
    let f2: PhysFrame<Size2MiB> = pmm.allocate_frame().unwrap();
    assert_eq!(0x200000, f2.start_address().as_u64());
    let f3: PhysFrame<Size4KiB> = pmm.allocate_frame().unwrap();
    assert_eq!(0x1000, f3.start_address().as_u64());
}

#[test]
fn allocator_skips_region_too_small_for_alignment() {
    // The first region cannot hold an aligned 2 MiB window, so the search
    // moves past it to the next region.
    let region1 = MemoryRegion::new(0x1000, 16, FrameState::Free);
    let region2 = MemoryRegion::new(0x40000000, 1024, FrameState::Free);
    let mut pmm = PhysicalMemoryManager::new(vec![region1, region2]);
    let f: PhysFrame<Size2MiB> = pmm.allocate_frame().unwrap();
    assert_eq!(0x40000000, f.start_address().as_u64());
}

#[test]
fn allocate_frames_returns_contiguous_run() {
    let region = MemoryRegion::new(0, 64, FrameState::Free);
    let mut pmm = PhysicalMemoryManager::new(vec![region]);
    let range: rkbpf::frames::PhysFrameRangeInclusive<Size4KiB> =
        pmm.allocate_frames(4).unwrap();
    assert_eq!(0, range.start.start_address().as_u64());
    assert_eq!(3 * 4096, range.end.start_address().as_u64());
    let f: PhysFrame<Size4KiB> = pmm.allocate_frame().unwrap();
    assert_eq!(4 * 4096, f.start_address().as_u64());
    assert_eq!(Some(range), pmm.deallocate_frames(range));
}
