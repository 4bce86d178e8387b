use trusty_launcher::allocator::GapAllocator;

#[test]
fn test_gap_allocator_host_regions() {
    let region_start = 0x8000_0000 + 64 * 1024 * 1024; // 0x8400_0000
    let region_end = region_start + 2 * 64 * 1024 * 1024; // 0x8C00_0000
    let mut allocator = GapAllocator::new(region_start..region_end);
    let size = 64 * 1024 * 1024;
    let alignment = 4096;

    // Verify we can create the 2 host regions we had before as fixed vectors
    assert_eq!(allocator.allocate(size, alignment), Some(0x8400_0000));
    assert_eq!(allocator.allocate(size, alignment), Some(0x8800_0000));
    // No more space
    assert_eq!(allocator.allocate(size, alignment), None);

    // Verify dealloc works and we can re-allocate
    assert!(allocator.dealloc(0x8400_0000));
    assert_eq!(allocator.allocate(size, alignment), Some(0x8400_0000));
}

#[test]
fn test_gap_allocator_secure_regions() {
    let region_start = 0x9000_0000;
    let region_end = region_start + 6 * 64 * 1024 * 1024; // 0xA800_0000
    let mut allocator = GapAllocator::new(region_start..region_end);
    let size = 64 * 1024 * 1024;
    let alignment = 4096;

    // Verify we can create the 6 secure regions we had before as fixed vectors
    assert_eq!(allocator.allocate(size, alignment), Some(0x9000_0000));
    assert_eq!(allocator.allocate(size, alignment), Some(0x9400_0000));
    assert_eq!(allocator.allocate(size, alignment), Some(0x9800_0000));
    assert_eq!(allocator.allocate(size, alignment), Some(0x9C00_0000));
    assert_eq!(allocator.allocate(size, alignment), Some(0xA000_0000));
    assert_eq!(allocator.allocate(size, alignment), Some(0xA400_0000));
    // No more space
    assert_eq!(allocator.allocate(size, alignment), None);
}

#[test]
fn zero_size_is_refused() {
    let mut allocator = GapAllocator::new(0..100);
    assert_eq!(allocator.allocate(0, 1), None);
    // nothing was recorded: the whole region is still free
    assert_eq!(allocator.allocate(100, 1), Some(0));
}

#[test]
fn start_is_rounded_up_to_alignment() {
    let mut allocator = GapAllocator::new(100..200);
    assert_eq!(allocator.allocate(10, 16), Some(112));
    // the gap before 112 is too small for 16 aligned bytes, the next start is 128
    assert_eq!(allocator.allocate(16, 16), Some(128));
    // 100..112 still holds 12 bytes at alignment 4
    assert_eq!(allocator.allocate(12, 4), Some(100));
}

#[test]
fn lowest_free_block_is_chosen() {
    let mut allocator = GapAllocator::new(0..100);
    assert_eq!(allocator.allocate(10, 1), Some(0));
    assert_eq!(allocator.allocate(10, 1), Some(10));
    assert_eq!(allocator.allocate(10, 1), Some(20));
    assert!(allocator.dealloc(10));
    // the hole left at 10 is the lowest free place for 5 bytes
    assert_eq!(allocator.allocate(5, 1), Some(10));
    // 15..20 cannot hold 10 bytes; the next is after 20..30
    assert_eq!(allocator.allocate(10, 1), Some(30));
    assert_eq!(allocator.allocate(5, 1), Some(15));
}

#[test]
fn nothing_fits_when_every_gap_is_too_small() {
    let mut allocator = GapAllocator::new(0..30);
    assert_eq!(allocator.allocate(10, 1), Some(0));
    assert_eq!(allocator.allocate(10, 1), Some(10));
    assert_eq!(allocator.allocate(10, 1), Some(20));
    assert!(allocator.dealloc(10));
    assert_eq!(allocator.allocate(11, 1), None);
    assert_eq!(allocator.allocate(10, 1), Some(10));
}

#[test]
fn dealloc_of_unknown_start_fails() {
    let mut allocator = GapAllocator::new(0x1000..0x2000);
    assert_eq!(allocator.allocate(0x100, 0x100), Some(0x1000));
    assert!(!allocator.dealloc(0x1001));
    assert!(!allocator.dealloc(0x1100));
    assert!(allocator.dealloc(0x1000));
    assert!(!allocator.dealloc(0x1000));
}

#[test]
fn dealloc_undoes_allocate() {
    let mut allocator = GapAllocator::new(0..1000);
    assert_eq!(allocator.allocate(100, 1), Some(0));
    assert_eq!(allocator.allocate(100, 1), Some(100));
    let a = allocator.allocate(50, 64).unwrap();
    assert_eq!(a, 256);
    assert!(allocator.dealloc(a));
    // back to the state before: the same request gets the same place
    assert_eq!(allocator.allocate(50, 64), Some(256));
}

#[test]
fn empty_or_reversed_region_holds_nothing() {
    let mut empty = GapAllocator::new(50..50);
    assert_eq!(empty.allocate(1, 1), None);
    let mut reversed = GapAllocator::new(80..40);
    assert_eq!(reversed.allocate(1, 1), None);
}

#[test]
fn alignment_need_not_be_a_power_of_two() {
    let mut allocator = GapAllocator::new(1..100);
    assert_eq!(allocator.allocate(5, 3), Some(3));
    assert_eq!(allocator.allocate(5, 3), Some(9));
}
