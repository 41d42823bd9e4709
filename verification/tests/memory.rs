use crafty_os::bitmap::Bitmap;
use crafty_os::memory::{BootInfoFrameAllocator, MemoryRegion};
use crafty_os::page_frame::{get_largest_section, get_memory_size, MemoryDescriptor, PageFramAllocator};

fn desc(ty: u32, phys_start: u64, page_count: u64) -> MemoryDescriptor {
    MemoryDescriptor { ty, phys_start, page_count }
}

fn sample_map() -> Vec<MemoryDescriptor> {
    vec![desc(7, 0, 16), desc(2, 0x10000, 4)]
}

#[test]
fn bitmap_new_is_clear_and_set_get_roundtrip() {
    let mut b = Bitmap::new(2, 0x5000);
    assert_eq!(b.size, 2);
    assert_eq!(b.buffer, 0x5000);
    for i in 0..16 {
        assert!(!b.get(i));
    }
    assert!(b.set(0, true));
    assert_eq!(b.bytes[0], 0b1000_0000);
    assert!(b.set(9, true));
    assert_eq!(b.bytes[1], 0b0100_0000);
    assert!(b.get(9));
    assert!(b.set(9, false));
    assert!(!b.get(9));
    assert!(b.get(0));
}

#[test]
fn bitmap_out_of_range_is_refused() {
    let mut b = Bitmap::new(1, 0);
    assert!(!b.set(8, true));
    assert!(!b.set(100, true));
    assert!(!b.get(8));
    assert_eq!(b.bytes, vec![0]);
}

#[test]
fn memory_size_sums_all_entries() {
    assert_eq!(get_memory_size(&sample_map()), 20 * 4096);
    assert_eq!(get_memory_size(&[]), 0);
}

#[test]
fn largest_section_takes_first_largest_conventional() {
    let map = vec![desc(7, 0x1000, 4), desc(1, 0x9000, 100), desc(7, 0x20000, 8), desc(7, 0x40000, 8)];
    assert_eq!(get_largest_section(&map), (0x20000, 8));
    assert_eq!(get_largest_section(&[desc(3, 0, 5)]), (0, 0));
}

#[test]
fn page_allocator_starts_with_bitmap_locked_and_reserved_regions() {
    let a = PageFramAllocator::new(&sample_map());
    assert_eq!(a.get_used_ram(), 4096);
    assert_eq!(a.get_reserved_ram(), 4 * 4096);
    assert_eq!(a.get_free_ram(), 20 * 4096 - 4096 - 4 * 4096);
}

#[test]
fn request_page_takes_first_free_pages_then_fails() {
    let mut a = PageFramAllocator::new(&sample_map());
    assert_eq!(a.request_page(), Ok(4096));
    assert_eq!(a.request_page(), Ok(8192));
    assert_eq!(a.request_page(), Err("No page found"));
    assert_eq!(a.get_used_ram(), 3 * 4096);
}

#[test]
fn lock_then_free_restores_counters() {
    let mut a = PageFramAllocator::new(&sample_map());
    let (free, used) = (a.get_free_ram(), a.get_used_ram());
    a.lock_page(5 * 4096);
    assert_eq!(a.get_used_ram(), used + 4096);
    a.lock_page(5 * 4096);
    assert_eq!(a.get_used_ram(), used + 4096);
    a.free_page(5 * 4096);
    assert_eq!((a.get_free_ram(), a.get_used_ram()), (free, used));
    a.free_page(5 * 4096);
    assert_eq!((a.get_free_ram(), a.get_used_ram()), (free, used));
}

#[test]
fn reserve_then_unreserve_restores_counters() {
    let mut a = PageFramAllocator::new(&sample_map());
    let (free, reserved) = (a.get_free_ram(), a.get_reserved_ram());
    a.reserve_pages(8 * 4096, 2);
    assert_eq!(a.get_reserved_ram(), reserved + 2 * 4096);
    a.unreserve_pages(8 * 4096, 2);
    assert_eq!((a.get_free_ram(), a.get_reserved_ram()), (free, reserved));
}

#[test]
fn lock_pages_and_free_pages_cover_a_run() {
    let mut a = PageFramAllocator::new(&sample_map());
    let used = a.get_used_ram();
    a.lock_pages(1 * 4096, 3);
    assert_eq!(a.get_used_ram(), used + 3 * 4096);
    assert_eq!(a.request_page(), Err("No page found"));
    a.free_pages(1 * 4096, 3);
    assert_eq!(a.get_used_ram(), used);
}

#[test]
fn frame_allocator_hands_out_usable_frames_in_order() {
    let map = vec![
        MemoryRegion { start_addr: 0x1000, end_addr: 0x3000, usable: true },
        MemoryRegion { start_addr: 0x3000, end_addr: 0x8000, usable: false },
        MemoryRegion { start_addr: 0x10000, end_addr: 0x11000, usable: true },
    ];
    let mut a = BootInfoFrameAllocator::init(map);
    assert_eq!(a.allocate_frame(), Some(0x1000));
    assert_eq!(a.allocate_frame(), Some(0x2000));
    assert_eq!(a.allocate_frame(), Some(0x10000));
    assert_eq!(a.allocate_frame(), None);
    assert_eq!(a.next, 4);
}

#[test]
fn used_and_reserved_bytes_follow_marked_pages() {
    let mut a = PageFramAllocator::new(&sample_map());
    // the bitmap's own page and the four reserved pages are marked
    assert_eq!(a.get_used_ram() + a.get_reserved_ram(), 5 * 4096);
    a.lock_page(5 * 4096);
    a.reserve_page(6 * 4096);
    a.unreserve_page(16 * 4096);
    a.lock_page(17 * 4096);
    assert_eq!(a.get_used_ram() + a.get_reserved_ram(), 6 * 4096);
    assert_eq!(a.get_free_ram() + a.get_used_ram() + a.get_reserved_ram(), get_memory_size(&sample_map()));
}
