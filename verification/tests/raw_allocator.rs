use cpu_lib::entry::Entry;
use cpu_lib::raw_allocator::FreeError::{AllocationNotFound, DoubleFreeDetected};
use cpu_lib::raw_allocator::{FreeError, RawAllocator};

/// Walk the allocator's chain, returning the headers.
fn allocations(allocator: &RawAllocator) -> Vec<Entry> {
    let buffer = allocator.buffer();
    let mut it = buffer.entries();
    let mut v = Vec::new();
    while let Some(vo) = it.next(buffer) {
        v.push(buffer.entry_at(vo));
    }
    v
}

#[test]
fn successful_single_allocation() {
    let mut allocator = RawAllocator::new(32);
    allocator.allocate(4).unwrap();
    assert_eq!(allocations(&allocator), vec![Entry::used(4), Entry::free(20)]);
}

#[test]
fn unsuccessful_single_allocation() {
    // the allocation is larger than the buffer itself
    let mut allocator = RawAllocator::new(32);
    assert!(allocator.allocate(36).is_none());
    assert_eq!(allocations(&allocator), vec![Entry::free(28)]);
}

#[test]
fn successful_multiple_allocation() {
    let mut allocator = RawAllocator::new(32);
    allocator.allocate(12).unwrap();
    allocator.allocate(12).unwrap();
    // allocator is now full
    assert_eq!(allocations(&allocator), vec![Entry::used(12), Entry::used(12)]);
}

#[test]
fn unsuccessful_multiple_allocation() {
    let mut allocator = RawAllocator::new(32);
    allocator.allocate(12).unwrap();
    // the second allocation is larger than the remaining space
    assert!(allocator.allocate(13).is_none());
    assert_eq!(allocations(&allocator), vec![Entry::used(12), Entry::free(12)]);
}

#[test]
fn unsuccessful_allocation_due_to_fragmentation() {
    // this test case shows, that the allocator is susceptible to memory
    // fragmentation, which makes larger allocations impossible, if the
    // heap is in a bad state.
    let mut allocator = RawAllocator::new(60);

    // build a fragmented heap
    let (ptr1, _) = allocator.allocate(8).unwrap();
    let _ptr2 = allocator.allocate(8).unwrap();
    let (ptr3, _) = allocator.allocate(8).unwrap();
    let _ptr4 = allocator.allocate(8).unwrap();
    let (ptr5, _) = allocator.allocate(8).unwrap();
    allocator.free(ptr1).unwrap();
    allocator.free(ptr3).unwrap();
    allocator.free(ptr5).unwrap();
    assert_eq!(
        allocations(&allocator),
        vec![
            Entry::free(8),
            Entry::used(8),
            Entry::free(8),
            Entry::used(8),
            Entry::free(8),
        ]
    );

    // now, there are 24 free bytes (3x 8 bytes) and the headers, but the
    // allocation of 10 bytes must fail, since there is no contiguous memory
    // of that size
    assert!(allocator.allocate(10).is_none());
}

#[test]
fn simple_free() {
    let mut allocator = RawAllocator::new(16);
    let (ptr, _) = allocator.allocate(4).unwrap();
    allocator.allocate(4).unwrap();
    assert_eq!(allocations(&allocator), vec![Entry::used(4), Entry::used(4)]);

    // now, that the heap is properly built up, there are two used entries.
    // when the first one is freed up, there is no possibility for merging
    // the free memory with the following one (as that one is used)
    allocator.free(ptr).unwrap();
    assert_eq!(allocations(&allocator), vec![Entry::free(4), Entry::used(4)]);
}

#[test]
fn double_free() {
    let mut allocator = RawAllocator::new(16);
    let (ptr, _) = allocator.allocate(4).unwrap();
    allocator.allocate(4).unwrap();

    // try to free up the pointer twice. The first time has to succeed, but
    // the second time has to result in a double-free-error.
    allocator.free(ptr).unwrap();
    assert_eq!(allocator.free(ptr), Err(FreeError::DoubleFreeDetected));
    assert_eq!(allocations(&allocator), vec![Entry::free(4), Entry::used(4)]);
}

#[test]
fn invalid_free() {
    let mut allocator = RawAllocator::new(32);
    allocator.allocate(4).unwrap();

    // try to free up a pointer, that was not allocated by this allocator.
    // This invalid usage has to be detected.
    let ptr = 64;
    assert_eq!(allocator.free(ptr), Err(FreeError::AllocationNotFound));
}

#[test]
fn free_of_modified_pointer() {
    let mut allocator = RawAllocator::new(16);
    let (ptr, _) = allocator.allocate(4).unwrap();
    allocator.allocate(4).unwrap();
    assert_eq!(allocations(&allocator), vec![Entry::used(4), Entry::used(4)]);

    let ptr = ptr + 3;
    // now there is a valid pointer, but this pointer was modified, e.g. to
    // be aligned properly. As the `free()`-call should support any pointer
    // into the memory block, this should succeed.
    allocator.free(ptr).unwrap();
    assert_eq!(allocations(&allocator), vec![Entry::free(4), Entry::used(4)]);
}

#[test]
fn free_with_concatenation() {
    let mut allocator = RawAllocator::new(32);
    let (ptr, _) = allocator.allocate(4).unwrap();
    assert_eq!(allocations(&allocator), vec![Entry::used(4), Entry::free(20)]);

    // now there is a used block followed by a free block. When the used
    // block is freed up as well, this should lead to a single free block.
    allocator.free(ptr).unwrap();
    assert_eq!(allocations(&allocator), vec![Entry::free(28)]);
}

#[test]
fn free_at_end() {
    let mut allocator = RawAllocator::new(16);
    allocator.allocate(4).unwrap();
    let (ptr, _) = allocator.allocate(4).unwrap();
    assert_eq!(allocations(&allocator), vec![Entry::used(4), Entry::used(4)]);

    // now, that the heap is properly built up, there are two used entries.
    // when the second one is freed up, there is no possibility for merging
    // the free memory with the following one (as there is no following one)
    allocator.free(ptr).unwrap();
    assert_eq!(allocations(&allocator), vec![Entry::used(4), Entry::free(4)]);
}

#[test]
fn free_impossible_defrag() {
    let mut allocator = RawAllocator::new(16);
    let (ptr1, _) = allocator.allocate(4).unwrap();
    let (ptr2, _) = allocator.allocate(4).unwrap();
    allocator.free(ptr1).unwrap();

    // now we have a free block, followed by a used block which in turn gets
    // freed up. Therefore there are two contiguous free blocks, but those
    // aren't concatenated, since the old free block is to the left (instead
    // of to the right).
    allocator.free(ptr2).unwrap();

    // therefore there must be two free blocks
    assert_eq!(allocations(&allocator), vec![Entry::free(4), Entry::free(4)]);
}

#[test]
fn alloc_impossible_splitting() {
    let mut allocator = RawAllocator::new(32);
    let _ptr1 = allocator.allocate(4).unwrap();
    let (ptr2, _) = allocator.allocate(12).unwrap();
    let _ptr3 = allocator.allocate(4).unwrap();
    allocator.free(ptr2).unwrap();
    assert_eq!(
        allocations(&allocator),
        vec![Entry::used(4), Entry::free(12), Entry::used(4)]
    );

    // new we've set up the heap such there is a free block of 12 in the
    // middle (and no free data at the end). If one acquires a block of size
    // 4 everything should work fine and the free block should be split up.
    let (ptr4, _) = allocator.allocate(4).unwrap();
    assert_eq!(
        allocations(&allocator),
        vec![Entry::used(4), Entry::used(4), Entry::free(4), Entry::used(4)]
    );
    allocator.free(ptr4).unwrap();
    assert_eq!(
        allocations(&allocator),
        vec![Entry::used(4), Entry::free(12), Entry::used(4)]
    );

    // now the previous state is restored. If there is an allocation for a
    // size of 12, no splitting must be happening, since the block is only
    // 12 bytes of size, so splitting would tamper the following block.
    let _ptr5 = allocator.allocate(12).unwrap();
    assert_eq!(
        allocations(&allocator),
        vec![Entry::used(4), Entry::used(12), Entry::used(4)]
    );
}

#[test]
fn free_error_properties() {
    // check, that the derived traits work as expected.

    assert_eq!(AllocationNotFound, AllocationNotFound);
    assert_eq!(DoubleFreeDetected, DoubleFreeDetected);
    assert_ne!(AllocationNotFound, DoubleFreeDetected);

    assert_eq!(AllocationNotFound.clone(), AllocationNotFound);
    assert_eq!(DoubleFreeDetected.clone(), DoubleFreeDetected);
    assert_ne!(AllocationNotFound.clone(), DoubleFreeDetected);

    assert_eq!(format!("{:?}", AllocationNotFound), "AllocationNotFound");
    assert_eq!(format!("{:?}", DoubleFreeDetected), "DoubleFreeDetected");
}

#[test]
fn best_fit_prefers_smallest_block() {
    // a free(4) hole between used blocks is preferred over the large
    // trailing free block, even though the trailing one comes later
    let mut allocator = RawAllocator::new(64);
    let _keep1 = allocator.allocate(4).unwrap();
    let (hole, _) = allocator.allocate(4).unwrap();
    let _keep2 = allocator.allocate(4).unwrap();
    allocator.free(hole).unwrap();
    assert_eq!(
        allocations(&allocator),
        vec![
            Entry::used(4),
            Entry::free(4),
            Entry::used(4),
            Entry::free(36),
        ]
    );

    let (again, _) = allocator.allocate(4).unwrap();
    assert_eq!(again, hole);
}

#[test]
fn request_rounded_to_full_headers() {
    // a request of 1 byte occupies one full header of payload
    let mut allocator = RawAllocator::new(32);
    let (_, len) = allocator.allocate(1).unwrap();
    assert_eq!(len, 4);
    assert_eq!(allocations(&allocator), vec![Entry::used(4), Entry::free(20)]);
}

#[test]
fn header_pointer_is_not_contained() {
    // offset 0 addresses the first header, not a payload byte
    let mut allocator = RawAllocator::new(16);
    allocator.allocate(4).unwrap();
    assert_eq!(allocator.free(0), Err(FreeError::AllocationNotFound));
}

#[test]
fn chain_tiles_the_buffer() {
    // whatever sequence of operations ran, the blocks found by
    // traversal are consecutive from offset 0 and reach the capacity,
    // up to at most one trailing header
    let mut allocator = RawAllocator::new(64);
    let (p1, _) = allocator.allocate(5).unwrap();
    let (p2, _) = allocator.allocate(17).unwrap();
    allocator.allocate(3).unwrap();
    allocator.free(p1).unwrap();
    allocator.free(p2).unwrap();
    allocator.allocate(9).unwrap();

    let buffer = allocator.buffer();
    let mut it = buffer.entries();
    let mut expected_offset = 0;
    while let Some(vo) = it.next(buffer) {
        assert_eq!(vo.offset(), expected_offset);
        expected_offset += 4 + buffer.entry_at(vo).size();
    }
    assert_eq!(expected_offset, 64);
}

#[test]
fn exact_fit_minus_one_header_keeps_tiling() {
    // asking for all but one header of the free block leaves an empty
    // free block at the end, still discovered by traversal
    let mut allocator = RawAllocator::new(32);
    let (ptr, _) = allocator.allocate(24).unwrap();
    assert_eq!(allocations(&allocator), vec![Entry::used(24), Entry::free(0)]);

    // freeing absorbs the empty tail, restoring the single free block
    allocator.free(ptr).unwrap();
    assert_eq!(allocations(&allocator), vec![Entry::free(28)]);
}
