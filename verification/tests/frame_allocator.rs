use sunrise_core::error::KernelError;
use sunrise_core::frame_allocator::can_init;
use sunrise_core::frame_allocator::init as init_from_boot;
use sunrise_core::frame_allocator::mark_area_free;
use sunrise_core::frame_allocator::mark_area_reserved;
use sunrise_core::frame_allocator::mark_frame_bootstrap_allocated;
use sunrise_core::frame_allocator::BootModule;
use sunrise_core::frame_allocator::FrameAllocator;
use sunrise_core::frame_allocator::FrameAllocatori386;
use sunrise_core::frame_allocator::MemoryArea;
use sunrise_core::frame_allocator::PhysicalMemRegion;
use sunrise_core::mem::PhysicalAddress;
use sunrise_core::mem::PAGE_SIZE;

const FRAMES_BITMAP_SIZE: usize = 32 / 8;
const ALL_MEMORY: usize = FRAMES_BITMAP_SIZE * 8 * PAGE_SIZE;

/// A 32-frame allocator with everything free but one frame in the middle.
fn init() -> FrameAllocatori386 {
    let mut allocator = FrameAllocatori386::with_bitmap_size(FRAMES_BITMAP_SIZE);
    assert_eq!(allocator.initialized(), false);
    mark_area_free(&mut allocator, 0, ALL_MEMORY);
    mark_area_reserved(&mut allocator, PAGE_SIZE * 3, PAGE_SIZE * 3 + 1);
    allocator.mark_initialized();
    allocator
}

fn free_map(allocator: &FrameAllocatori386) -> Vec<bool> {
    (0..allocator.frame_count()).map(|f| allocator.frame_is_free(f)).collect()
}

fn drop_all(allocator: &mut FrameAllocatori386, regions: Vec<PhysicalMemRegion>) {
    for region in regions {
        region.release(allocator);
    }
}

#[test]
fn ok() {
    let mut f = init();

    let a = FrameAllocator::allocate_frame(&mut f).unwrap();
    let b = FrameAllocator::allocate_region(&mut f, 2 * PAGE_SIZE).unwrap();
    let c_vec = FrameAllocator::allocate_frames_fragmented(&mut f, 3 * PAGE_SIZE).unwrap();

    a.release(&mut f);
    b.release(&mut f);
    drop_all(&mut f, c_vec);
}

#[test]
fn fragmented() {
    let mut allocator = init();
    // make it all available
    mark_area_free(&mut allocator, 0, ALL_MEMORY);

    // reserve some frames in the middle
    mark_area_reserved(&mut allocator, 2 * PAGE_SIZE, 7 * PAGE_SIZE);

    // force a fragmented allocation
    let frames = FrameAllocator::allocate_frames_fragmented(&mut allocator, 5 * PAGE_SIZE).unwrap();

    assert_eq!(frames.len(), 2);
    assert_eq!(frames[0].address(), PhysicalAddress(0x00000000));
    assert_eq!(frames[0].size(), 2 * PAGE_SIZE);
    assert_eq!(frames[1].address(), PhysicalAddress(7 * PAGE_SIZE));
    assert_eq!(frames[1].size(), 3 * PAGE_SIZE);
}

#[test]
fn zero() {
    let mut f = init();
    FrameAllocator::allocate_region(&mut f, 0).unwrap_err();
    FrameAllocator::allocate_frames_fragmented(&mut f, 0).unwrap_err();
}

#[test]
fn physical_oom_frame() {
    let mut allocator = init();
    // make it all reserved
    mark_area_reserved(&mut allocator, 0, ALL_MEMORY);

    match FrameAllocator::allocate_frame(&mut allocator) {
        Err(KernelError::PhysicalMemoryExhaustion { .. }) => (),
        unexpected_err => panic!("test failed: {:#?}", unexpected_err),
    }
}

#[test]
fn physical_oom_frame_threshold() {
    let mut allocator = init();
    // make it all reserved
    mark_area_reserved(&mut allocator, 0, ALL_MEMORY);
    // leave only the last frame
    mark_area_free(&mut allocator, ALL_MEMORY - PAGE_SIZE, ALL_MEMORY);

    FrameAllocator::allocate_frame(&mut allocator).unwrap();
}

#[test]
fn physical_oom_region() {
    let mut allocator = init();
    // make it all reserved
    mark_area_reserved(&mut allocator, 0, ALL_MEMORY);
    // leave only the last 3 frames
    mark_area_free(&mut allocator, ALL_MEMORY - 3 * PAGE_SIZE, ALL_MEMORY);

    match FrameAllocator::allocate_region(&mut allocator, 4 * PAGE_SIZE) {
        Err(KernelError::PhysicalMemoryExhaustion { .. }) => (),
        unexpected_err => panic!("test failed: {:#?}", unexpected_err),
    }
}

#[test]
fn physical_oom_region_threshold() {
    let mut allocator = init();
    // make it all reserved
    mark_area_reserved(&mut allocator, 0, ALL_MEMORY);
    // leave only the last 3 frames
    mark_area_free(&mut allocator, ALL_MEMORY - 3 * PAGE_SIZE, ALL_MEMORY);

    FrameAllocator::allocate_region(&mut allocator, 3 * PAGE_SIZE).unwrap();
}

#[test]
fn physical_oom_fragmented() {
    let mut allocator = init();
    // make it all available
    mark_area_free(&mut allocator, 0, ALL_MEMORY);

    match FrameAllocator::allocate_frames_fragmented(&mut allocator, ALL_MEMORY + PAGE_SIZE) {
        Err(KernelError::PhysicalMemoryExhaustion { .. }) => (),
        unexpected_err => panic!("test failed: {:#?}", unexpected_err),
    }
}

#[test]
fn physical_oom_threshold_fragmented() {
    let mut allocator = init();
    // make it all available
    mark_area_free(&mut allocator, 0, ALL_MEMORY);

    FrameAllocator::allocate_frames_fragmented(&mut allocator, ALL_MEMORY).unwrap();
}

#[test]
fn allocate_last_frame() {
    let mut allocator = init();
    // make it all available
    mark_area_free(&mut allocator, 0, ALL_MEMORY);

    // reserve all but last frame
    mark_area_reserved(&mut allocator, 0, ALL_MEMORY - PAGE_SIZE);

    // check with allocate_frame
    let frame = FrameAllocator::allocate_frame(&mut allocator).unwrap();
    frame.release(&mut allocator);

    // check with allocate_region
    let frame = FrameAllocator::allocate_region(&mut allocator, PAGE_SIZE).unwrap();
    frame.release(&mut allocator);

    // check with allocate_frames_fragmented
    let frame = FrameAllocator::allocate_frames_fragmented(&mut allocator, PAGE_SIZE).unwrap();
    drop_all(&mut allocator, frame);

    // check we had really allocated *all* of it
    let frame = FrameAllocator::allocate_frame(&mut allocator).unwrap();
    match FrameAllocator::allocate_frame(&mut allocator) {
        Err(KernelError::PhysicalMemoryExhaustion { .. }) => (),
        unexpected_err => panic!("test failed: {:#?}", unexpected_err),
    };
    frame.release(&mut allocator);
}

#[test]
fn oom_hard() {
    let mut allocator = init();
    // make it all reserved
    mark_area_reserved(&mut allocator, 0, ALL_MEMORY);

    // free only 1 frame in the middle
    mark_area_free(&mut allocator, 2 * PAGE_SIZE, 3 * PAGE_SIZE);

    // check with allocate_region
    match FrameAllocator::allocate_region(&mut allocator, 2 * PAGE_SIZE) {
        Err(KernelError::PhysicalMemoryExhaustion { .. }) => (),
        unexpected_err => panic!("test failed: {:#?}", unexpected_err),
    }

    // check with allocate_frame_fragmented
    match FrameAllocator::allocate_frames_fragmented(&mut allocator, 2 * PAGE_SIZE) {
        Err(KernelError::PhysicalMemoryExhaustion { .. }) => (),
        unexpected_err => panic!("test failed: {:#?}", unexpected_err),
    }

    // check we can still take only one frame
    let frame = FrameAllocator::allocate_frame(&mut allocator).unwrap();
    match FrameAllocator::allocate_frame(&mut allocator) {
        Err(KernelError::PhysicalMemoryExhaustion { .. }) => (),
        unexpected_err => panic!("test failed: {:#?}", unexpected_err),
    }
    frame.release(&mut allocator);
}

#[test]
fn physical_oom_doesnt_leak() {
    let mut allocator = init();
    // make it all available
    mark_area_free(&mut allocator, 0, ALL_MEMORY);

    // allocate it all
    let half_left = FrameAllocator::allocate_region(&mut allocator, ALL_MEMORY / 2).unwrap();
    let half_right = FrameAllocator::allocate_region(&mut allocator, ALL_MEMORY / 2).unwrap();

    // check we have really allocated *all* of it
    match FrameAllocator::allocate_frame(&mut allocator) {
        Err(KernelError::PhysicalMemoryExhaustion { .. }) => (),
        unexpected_err => panic!("test failed: {:#?}", unexpected_err),
    };

    // free only the left half
    half_left.release(&mut allocator);

    // attempt to allocate more than the available half
    match FrameAllocator::allocate_frames_fragmented(&mut allocator, ALL_MEMORY / 2 + PAGE_SIZE) {
        Err(KernelError::PhysicalMemoryExhaustion { .. }) => (),
        unexpected_err => panic!("test failed: {:#?}", unexpected_err),
    };

    // we should be able to still allocate after an oom recovery.
    let half_left = FrameAllocator::allocate_frames_fragmented(&mut allocator, ALL_MEMORY / 2).unwrap();

    // and now memory is fully allocated again
    match FrameAllocator::allocate_frame(&mut allocator) {
        Err(KernelError::PhysicalMemoryExhaustion { .. }) => (),
        unexpected_err => panic!("test failed: {:#?}", unexpected_err),
    };

    drop_all(&mut allocator, half_left);
    half_right.release(&mut allocator);
}

#[test]
fn fragmented_allocation_returns_exact_regions() {
    let mut allocator = FrameAllocatori386::with_bitmap_size(FRAMES_BITMAP_SIZE);
    mark_area_free(&mut allocator, 0, ALL_MEMORY);
    mark_area_reserved(&mut allocator, 2 * PAGE_SIZE, 7 * PAGE_SIZE);
    allocator.mark_initialized();
    let regions = FrameAllocator::allocate_frames_fragmented(&mut allocator, 5 * PAGE_SIZE).unwrap();
    let found: Vec<(usize, usize)> =
        regions.iter().map(|r| (r.address().addr() / PAGE_SIZE, r.frames())).collect();
    assert_eq!(found, vec![(0, 2), (7, 3)]);
    // frames 0..10 are taken now, the rest is still free
    let map = free_map(&allocator);
    for f in 0..32 {
        assert_eq!(map[f], f >= 10);
    }
}

#[test]
fn failed_fragmented_allocation_leaves_bitmap_unchanged() {
    let mut allocator = init();
    mark_area_reserved(&mut allocator, 10 * PAGE_SIZE, 20 * PAGE_SIZE);
    let before = free_map(&allocator);
    let free = before.iter().filter(|b| **b).count();
    assert_eq!(free, 21);
    let r = FrameAllocator::allocate_frames_fragmented(&mut allocator, 22 * PAGE_SIZE);
    assert_eq!(r.unwrap_err(), KernelError::PhysicalMemoryExhaustion);
    assert_eq!(free_map(&allocator), before);
    // exactly as many as are free can be had
    let all = FrameAllocator::allocate_frames_fragmented(&mut allocator, 21 * PAGE_SIZE).unwrap();
    assert_eq!(all.len(), 3);
    assert!(free_map(&allocator).iter().all(|b| !*b));
}

#[test]
fn occupied_frames_match_live_regions() {
    let mut allocator = init();
    let occupied = |a: &FrameAllocatori386| free_map(a).iter().filter(|b| !**b).count();
    let reserved = occupied(&allocator);
    assert_eq!(reserved, 1);
    let a = FrameAllocator::allocate_region(&mut allocator, 4 * PAGE_SIZE).unwrap();
    assert_eq!(occupied(&allocator), reserved + 4);
    let b = FrameAllocator::allocate_frames_fragmented(&mut allocator, 6 * PAGE_SIZE).unwrap();
    assert_eq!(occupied(&allocator), reserved + 4 + 6);
    a.release(&mut allocator);
    assert_eq!(occupied(&allocator), reserved + 6);
    drop_all(&mut allocator, b);
    assert_eq!(occupied(&allocator), reserved);
}

#[test]
fn free_then_allocate_returns_same_frames() {
    let mut allocator = init();
    let low = FrameAllocator::allocate_region(&mut allocator, 3 * PAGE_SIZE).unwrap();
    assert_eq!(low.address(), PhysicalAddress(0));
    let first = FrameAllocator::allocate_region(&mut allocator, 3 * PAGE_SIZE).unwrap();
    let base = first.address();
    assert_eq!(base, PhysicalAddress(4 * PAGE_SIZE));
    let _above = FrameAllocator::allocate_region(&mut allocator, 2 * PAGE_SIZE).unwrap();
    first.release(&mut allocator);
    let again = FrameAllocator::allocate_region(&mut allocator, 3 * PAGE_SIZE).unwrap();
    assert_eq!(again.address(), base);
    assert_eq!(again.size(), 3 * PAGE_SIZE);
}

#[test]
fn invalid_sizes_are_refused() {
    let mut allocator = init();
    assert_eq!(
        FrameAllocator::allocate_region(&mut allocator, 0).unwrap_err(),
        KernelError::InvalidSize { size: 0 }
    );
    assert_eq!(
        FrameAllocator::allocate_region(&mut allocator, PAGE_SIZE + 1).unwrap_err(),
        KernelError::InvalidSize { size: PAGE_SIZE + 1 }
    );
    assert_eq!(
        FrameAllocator::allocate_frames_fragmented(&mut allocator, 100).unwrap_err(),
        KernelError::InvalidSize { size: 100 }
    );
}

#[test]
fn check_is_allocated_rounds_to_frames() {
    let allocator = init();
    // frame 3 is the only reserved one
    assert!(FrameAllocator::check_is_allocated(&allocator, PhysicalAddress(3 * PAGE_SIZE), PAGE_SIZE));
    assert!(FrameAllocator::check_is_reserved(&allocator, PhysicalAddress(3 * PAGE_SIZE + 5), 10));
    assert!(!FrameAllocator::check_is_allocated(&allocator, PhysicalAddress(3 * PAGE_SIZE), PAGE_SIZE + 1));
    assert!(!FrameAllocator::check_is_allocated(&allocator, PhysicalAddress(2 * PAGE_SIZE + 1), PAGE_SIZE));
}

#[test]
fn init_applies_memory_map() {
    let mut allocator = FrameAllocatori386::with_bitmap_size(FRAMES_BITMAP_SIZE);
    let areas = vec![
        MemoryArea { start_address: 0, end_address: (20 * PAGE_SIZE) as u64, memory_type: 1 },
        MemoryArea { start_address: (4 * PAGE_SIZE + 1) as u64, end_address: (5 * PAGE_SIZE) as u64, memory_type: 2 },
        MemoryArea { start_address: 0x1_0000_0000, end_address: 0x1_0000_1000, memory_type: 1 },
    ];
    let kernel = vec![PhysicalAddress(8 * PAGE_SIZE), PhysicalAddress(9 * PAGE_SIZE)];
    let modules = vec![BootModule { start_address: (12 * PAGE_SIZE + 7) as u32, end_address: (13 * PAGE_SIZE + 1) as u32 }];
    assert!(can_init(&allocator, &areas, &kernel, &modules));
    assert!(!allocator.initialized());
    assert!(free_map(&allocator).iter().all(|free| !free));
    init_from_boot(&mut allocator, &areas, &kernel, &modules);
    assert!(allocator.initialized());
    let map = free_map(&allocator);
    let occupied: Vec<usize> = (0..32).filter(|f| !map[*f]).collect();
    let mut expected = vec![0, 4, 8, 9, 12, 13];
    expected.extend(20..32);
    assert_eq!(occupied, expected);
}

#[test]
fn bootstrap_frame_is_taken() {
    let mut allocator = init();
    mark_frame_bootstrap_allocated(&mut allocator, PhysicalAddress(5 * PAGE_SIZE));
    assert!(!allocator.frame_is_free(5));
    assert!(allocator.frame_is_free(4));
    assert!(allocator.frame_is_free(6));
}

#[test]
fn new_allocator_reserves_everything() {
    let allocator = FrameAllocatori386::new();
    assert_eq!(allocator.frame_count(), 1 << 20);
    assert!(!allocator.initialized());
    assert!(!allocator.frame_is_free(0));
    assert!(!allocator.frame_is_free((1 << 20) - 1));
}

fn usable(frames: usize) -> Vec<MemoryArea> {
    vec![MemoryArea { start_address: 0, end_address: (frames * PAGE_SIZE) as u64, memory_type: 1 }]
}

#[test]
fn init_is_refused_for_an_area_beyond_the_bitmap() {
    let allocator = FrameAllocatori386::with_bitmap_size(FRAMES_BITMAP_SIZE);
    assert!(can_init(&allocator, &usable(32), &vec![], &vec![]));
    assert!(!can_init(&allocator, &usable(33), &vec![], &vec![]));
    // an area above the 32-bit address space is not looked at
    let high = vec![MemoryArea { start_address: 0x1_0000_0000, end_address: 0x2_0000_0000, memory_type: 1 }];
    assert!(can_init(&allocator, &high, &vec![], &vec![]));
}

#[test]
fn init_is_refused_for_a_module_beyond_the_bitmap() {
    let allocator = FrameAllocatori386::with_bitmap_size(FRAMES_BITMAP_SIZE);
    let inside = vec![BootModule { start_address: (31 * PAGE_SIZE) as u32, end_address: (32 * PAGE_SIZE) as u32 }];
    let outside = vec![BootModule { start_address: (31 * PAGE_SIZE) as u32, end_address: (32 * PAGE_SIZE + 1) as u32 }];
    assert!(can_init(&allocator, &usable(32), &vec![], &inside));
    assert!(!can_init(&allocator, &usable(32), &vec![], &outside));
}

#[test]
fn init_is_refused_for_a_kernel_frame_that_is_not_free() {
    let allocator = FrameAllocatori386::with_bitmap_size(FRAMES_BITMAP_SIZE);
    let areas = usable(16);
    assert!(can_init(&allocator, &areas, &vec![PhysicalAddress(15 * PAGE_SIZE)], &vec![]));
    // outside the usable memory
    assert!(!can_init(&allocator, &areas, &vec![PhysicalAddress(16 * PAGE_SIZE)], &vec![]));
    // beyond the bitmap
    assert!(!can_init(&allocator, &areas, &vec![PhysicalAddress(32 * PAGE_SIZE)], &vec![]));
    // not the start of a frame
    assert!(!can_init(&allocator, &areas, &vec![PhysicalAddress(3 * PAGE_SIZE + 4)], &vec![]));
    // the same frame twice
    let twice = vec![PhysicalAddress(3 * PAGE_SIZE), PhysicalAddress(3 * PAGE_SIZE)];
    assert!(!can_init(&allocator, &areas, &twice, &vec![]));
    // the attempts have left the allocator as it was
    assert!(free_map(&allocator).iter().all(|free| !free));
    assert!(!allocator.initialized());
}
