use core::alloc::Layout;

use cpu_lib::allocator::Allocator;

#[test]
fn alignment_of_align_to() {
    // offsets with the same low bits as the original pointers into an
    // aligned buffer at 0x10
    let base: usize = 0x10;

    let addr_0x10 = base;
    let addr_0x11 = base + 1;
    let addr_0x14 = base + 4;
    let addr_0x1c = base + 0xc;
    let addr_0x20 = base + 0x10;

    // the actual test for the alignment of `align_to()`
    assert_eq!(Allocator::align_to(addr_0x11, 4), addr_0x14);
    assert_eq!(Allocator::align_to(addr_0x10, 4), addr_0x10);

    assert_eq!(Allocator::align_to(addr_0x11, 1), addr_0x11);

    assert_eq!(Allocator::align_to(addr_0x1c, 16), addr_0x20);
}

/// Assert the given alignment of an address.
fn assert_alignment(addr: usize, align: usize) {
    assert_eq!(addr % align, 0, "Alignment not fulfilled");
}

#[test]
fn small_alignments() {
    let mut allocator = Allocator::new(128);

    let (ptr, _) = allocator.allocate(8, 2).unwrap();
    assert_alignment(ptr, 1);

    let (ptr, _) = allocator.allocate(4, 4).unwrap();
    assert_alignment(ptr, 4);
}

#[test]
fn medium_alignments() {
    let mut allocator = Allocator::new(128);

    let (ptr, _) = allocator.allocate(4, 8).unwrap();
    assert_alignment(ptr, 8);

    let (ptr, _) = allocator.allocate(4, 32).unwrap();
    assert_alignment(ptr, 32);
}

#[test]
fn huge_alignment() {
    const FOUR_MEG: usize = 4 * 1024 * 1024;

    let mut allocator = Allocator::new(10 * 1024 * 1024);
    let (ptr, _) = allocator.allocate(4, FOUR_MEG).unwrap();

    assert_alignment(ptr, FOUR_MEG);
}

#[test]
fn allocation_failure() {
    let mut allocator = Allocator::new(128);

    // try an allocation, that exceeds the total memory size
    let ptr = allocator.allocate(129, 1);
    assert_eq!(ptr, None);
}

#[test]
fn allocation_failure_due_to_alignment() {
    let mut allocator = Allocator::new(128);

    // try an allocation, that exceeds the total memory size
    let ptr = allocator.allocate(8, 128);
    assert_eq!(ptr, None);
}

#[test]
fn example_usage() {
    // do some example allocations. There is an intermediate deallocation,
    // different allocation/deallocation-orders, different alignments and
    // different sizes.
    let mut allocator = Allocator::new(4096);

    let layout1 = Layout::new::<u32>();
    let ptr1 = allocator.allocate(layout1.size(), layout1.align());
    assert_ne!(ptr1, None);

    let layout2 = Layout::new::<f64>();
    let ptr2 = allocator.allocate(layout2.size(), layout2.align());
    assert_ne!(ptr2, None);

    let layout3 = Layout::new::<[u16; 12]>();
    let ptr3 = allocator.allocate(layout3.size(), layout3.align());
    assert_ne!(ptr3, None);

    allocator.deallocate(ptr2.unwrap().0);

    let layout4 = Layout::new::<[u128; 3]>();
    let ptr4 = allocator.allocate(layout4.size(), layout4.align());
    assert_ne!(ptr4, None);

    let layout5 = Layout::new::<f32>();
    let ptr5 = allocator.allocate(layout5.size(), layout5.align());
    assert_ne!(ptr5, None);

    allocator.deallocate(ptr3.unwrap().0);
    allocator.deallocate(ptr4.unwrap().0);
    allocator.deallocate(ptr5.unwrap().0);
    allocator.deallocate(ptr1.unwrap().0);
}

#[test]
fn deallocate_swallows_errors() {
    // a deallocation interface must never fail visibly: freeing an
    // address outside the heap, or freeing twice, just does nothing
    let mut allocator = Allocator::new(64);
    allocator.deallocate(1000);

    let (ptr, len) = allocator.allocate(8, 4).unwrap();
    assert_eq!(len, 8);
    allocator.deallocate(ptr);
    allocator.deallocate(ptr);

    // the whole heap is available again afterwards
    assert!(allocator.allocate(60 - 8, 1).is_some());
}

#[test]
fn returned_length_is_requested_size() {
    let mut allocator = Allocator::new(128);
    let (_, len) = allocator.allocate(5, 16).unwrap();
    assert_eq!(len, 5);
}

#[test]
fn deallocate_restores_the_whole_heap() {
    // the allocate/deallocate round trip loses nothing, even when the
    // allocation left only one header of room: the empty tail block
    // coalesces back in
    let mut allocator = Allocator::new(16);
    let (ptr, _) = allocator.allocate(8, 1).unwrap();
    allocator.deallocate(ptr);
    assert!(allocator.allocate(12, 1).is_some());
}
