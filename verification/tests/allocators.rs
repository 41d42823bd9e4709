use crafty_os::allocator::align_up;
use crafty_os::allocator::fixed_size_block::{block_size, list_index, FixedSizeBlockAllocator, BLOCK_CLASSES};
use crafty_os::allocator::linked_list::{LinkedListAllocator, ListNode};

#[test]
fn align_up_rounds_to_next_multiple() {
    assert_eq!(align_up(0, 8), 0);
    assert_eq!(align_up(1, 8), 8);
    assert_eq!(align_up(4096, 4096), 4096);
    assert_eq!(align_up(4097, 4096), 8192);
    assert_eq!(align_up(13, 5), 15);
}

#[test]
fn list_index_picks_smallest_fitting_class() {
    assert_eq!(list_index(1, 1), Some(0));
    assert_eq!(list_index(8, 8), Some(0));
    assert_eq!(list_index(9, 1), Some(1));
    assert_eq!(list_index(4, 64), Some(3));
    assert_eq!(list_index(2048, 8), Some(8));
    assert_eq!(list_index(2049, 8), None);
    assert_eq!(list_index(8, 4096), None);
    assert_eq!(BLOCK_CLASSES, 9);
    assert_eq!(block_size(0), 8);
    assert_eq!(block_size(5), 256);
    assert_eq!(block_size(8), 2048);
}

#[test]
fn fixed_size_empty_heap_gives_null() {
    let mut a = FixedSizeBlockAllocator::new();
    assert_eq!(a.allocate(16, 8), 0);
    assert_eq!(a.allocate(4096, 8), 0);
}

#[test]
fn fixed_size_freed_block_is_reused_first() {
    let mut a = FixedSizeBlockAllocator::new();
    assert!(a.deallocate(0x1000, 32, 8));
    assert!(a.deallocate(0x2000, 32, 8));
    assert_eq!(a.allocate(20, 4), 0x2000);
    assert_eq!(a.allocate(32, 32), 0x1000);
    assert_eq!(a.allocate(32, 32), 0);
}

fn heap_memory(len: usize) -> &'static mut [std::mem::MaybeUninit<u8>] {
    Box::leak(vec![std::mem::MaybeUninit::<u8>::uninit(); len].into_boxed_slice())
}

#[test]
fn fixed_size_try_allocate_on_empty_heap_gives_null() {
    let mut a = FixedSizeBlockAllocator::new();
    assert_eq!(a.try_allocate(16, 8), Some(0));
    assert_eq!(a.try_allocate(4096, 8), Some(0));
}

#[test]
fn fixed_size_live_allocations_do_not_overlap() {
    let mut a = FixedSizeBlockAllocator::new();
    let mem = heap_memory(16 * 1024);
    let start = mem.as_ptr() as usize;
    a.fallback_heap().init_from_slice(mem);
    let bottom = a.fallback_heap().bottom() as usize;
    let top = a.fallback_heap().top() as usize;
    assert!(start <= bottom && top <= start + 16 * 1024);
    let p1 = a.try_allocate(4, 4).unwrap();
    let p2 = a.try_allocate(4, 4).unwrap();
    let big = a.try_allocate(4096, 8).unwrap();
    assert!(p1 != 0 && p2 != 0 && big != 0);
    assert_eq!(p1 % 8, 0);
    assert_eq!(p2 % 8, 0);
    // blocks of the 8-byte class are 8 bytes apart at least, the large block
    // lies apart from both
    assert!(p1 + 8 <= p2 || p2 + 8 <= p1);
    assert!(big + 4096 <= p1.min(p2) || p1.max(p2) + 8 <= big);
    for p in [p1, p2, big] {
        assert!(bottom <= p && p < top);
    }
    // a freed small block comes back first
    assert!(a.deallocate(p1, 4, 4));
    assert_eq!(a.try_allocate(8, 8), Some(p1));
    // a request larger than the heap is refused
    assert_eq!(a.try_allocate(64 * 1024, 8), Some(0));
}

#[test]
fn fixed_size_allocate_within_follows_the_heap_bounds() {
    let mut a = FixedSizeBlockAllocator::new();
    // an empty heap (top 0) is asked, and gives nothing
    assert_eq!(a.allocate_within(16, 8, 0, 0), Some(0));
    // a heap at address 0 is never asked
    assert_eq!(a.allocate_within(16, 8, 0, 0x1000), None);
    // nor one whose top is too close to the end of the address space
    assert_eq!(a.allocate_within(4096, 8, 0x1000, usize::MAX - 64), None);
    // a free block of the class is handed out whatever the bounds
    assert!(a.deallocate(0x3000, 16, 8));
    assert_eq!(a.allocate_within(16, 8, 0, 0x1000), Some(0x3000));
    // with room below the top, the heap is asked
    let mem = heap_memory(4096);
    a.fallback_heap().init_from_slice(mem);
    let bottom = a.fallback_heap().bottom() as usize;
    let top = a.fallback_heap().top() as usize;
    let p = a.allocate_within(64, 8, bottom, top).unwrap();
    assert!(bottom <= p && p + 64 <= top);
}

#[test]
fn fixed_size_large_blocks_are_left_to_fallback() {
    let mut a = FixedSizeBlockAllocator::new();
    assert!(!a.deallocate(0x8000, 4096, 8));
}

#[test]
fn linked_list_new_is_empty_and_allocates_nothing() {
    let mut a = LinkedListAllocator::new();
    assert!(a.regions.is_empty());
    assert_eq!(a.allocate(8, 8), 0);
}

#[test]
fn linked_list_first_fit_splits_region() {
    let mut a = LinkedListAllocator::new();
    a.init(0x1000, 0x1000);
    let p = a.allocate(100, 8);
    assert_eq!(p, 0x1000);
    assert_eq!(a.regions, vec![ListNode { start: 0x1000 + 104, size: 0x1000 - 104 }]);
}

#[test]
fn linked_list_alignment_skips_bytes() {
    let mut a = LinkedListAllocator::new();
    a.init(0x1008, 0x1000);
    let p = a.allocate(64, 64);
    assert_eq!(p, 0x1040);
    assert_eq!(a.regions, vec![ListNode { start: 0x1080, size: 0x2008 - 0x1080 }]);
}

#[test]
fn linked_list_tiny_leftover_refused() {
    let mut a = LinkedListAllocator::new();
    a.init(0x1000, 40);
    assert_eq!(a.allocate(32, 8), 0);
    assert_eq!(a.allocate(40, 8), 0x1000);
    assert!(a.regions.is_empty());
}

#[test]
fn linked_list_dealloc_puts_region_in_front() {
    let mut a = LinkedListAllocator::new();
    a.init(0x1000, 0x100);
    let p = a.allocate(16, 8);
    a.deallocate(p, 16, 8);
    assert_eq!(a.regions[0], ListNode { start: 0x1000, size: 16 });
    assert_eq!(a.regions[1], ListNode { start: 0x1010, size: 0xF0 });
}

#[test]
fn linked_list_size_align_pads() {
    assert_eq!(LinkedListAllocator::size_align(1, 1), (16, 8));
    assert_eq!(LinkedListAllocator::size_align(20, 8), (24, 8));
    assert_eq!(LinkedListAllocator::size_align(20, 32), (32, 32));
}

#[test]
fn list_node_addresses() {
    let n = ListNode::new(0x100, 0x20);
    assert_eq!(n.start_addr(), 0x100);
    assert_eq!(n.end_addr(), 0x120);
    assert_eq!(LinkedListAllocator::alloc_from_region(&n, 0x20, 8), Ok(0x100));
    assert_eq!(LinkedListAllocator::alloc_from_region(&n, 0x18, 8), Err(()));
    assert_eq!(LinkedListAllocator::alloc_from_region(&n, 0x10, 8), Ok(0x100));
}
