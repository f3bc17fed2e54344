//! Frame allocation, address-space isolation, and the mapping round trip.

use steelmind_kernel::addr::{KERNEL_DYNAMIC_START, KERNEL_HEAP_START, USER_STACK_START};
use steelmind_kernel::frames::{BootInfoFrameAllocator, MemoryRegion};
use steelmind_kernel::paging::{Memory, FLAG_WRITABLE, KERNEL_SLICE_LEN};

fn test_regions() -> Vec<MemoryRegion> {
    vec![
        MemoryRegion { start: 0, end: 0x8000, usable: true },
        MemoryRegion { start: 0x10000, end: 0x20300, usable: true },
        MemoryRegion { start: 0x30000, end: 0x40000, usable: false },
        MemoryRegion { start: 0x50000, end: 0x54000, usable: true },
    ]
}

fn kernel_slice() -> Vec<u64> {
    let mut v = Vec::new();
    let mut i = 0u64;
    while i < KERNEL_SLICE_LEN as u64 {
        v.push(0x7000 + i * 0x1000);
        i += 1;
    }
    v
}

fn test_memory() -> Memory {
    // the second region holds 16 aligned frames; two back the RAM disk
    Memory::new(&test_regions(), 0x11000, 0x12fff, kernel_slice())
}

#[test]
fn allocator_skips_zero_unusable_and_ramdisk_frames() {
    // region at zero is skipped, the unusable region contributes nothing,
    // 0x10000..0x20300 gives 16 frames minus the 2 RAM-disk frames,
    // 0x50000..0x54000 gives 4
    let a = BootInfoFrameAllocator::new(&test_regions(), 0x11000, 0x12fff);
    assert_eq!(a.total_frames(), 18);
}

#[test]
fn allocate_and_deallocate_restore_free_count() {
    let mut a = BootInfoFrameAllocator::new(&test_regions(), 0x11000, 0x12fff);
    let initial = a.free_frames();
    let f1 = a.allocate_frame().unwrap();
    let f2 = a.allocate_frame().unwrap();
    assert_ne!(f1, f2);
    assert_eq!(a.free_frames(), initial - 2);
    assert_eq!(a.total_frames(), initial);
    a.deallocate_frame(f2);
    a.deallocate_frame(f1);
    assert_eq!(a.free_frames(), initial);
}

#[test]
fn allocator_exhaustion_returns_none() {
    let regions = vec![MemoryRegion { start: 0x1000, end: 0x3000, usable: true }];
    let mut a = BootInfoFrameAllocator::new(&regions, 0, 0);
    assert!(a.allocate_frame().is_some());
    assert!(a.allocate_frame().is_some());
    assert!(a.allocate_frame().is_none());
}

#[test]
fn map_then_unmap_is_a_no_op_at_the_allocator() {
    let mut mem = test_memory();
    let (used0, total) = mem.get_memory_utilization();
    let page = KERNEL_HEAP_START;
    let frame = mem.map_ram_kernel(page, FLAG_WRITABLE);
    let (used1, _) = mem.get_memory_utilization();
    assert_eq!(used1, used0 + 1);
    assert_eq!(mem.translate(page), Some(frame));
    mem.unmap_ram(page);
    let (used2, total2) = mem.get_memory_utilization();
    assert_eq!(used2, used0);
    assert_eq!(total2, total);
    assert_eq!(mem.translate(page), None);
}

#[test]
fn address_spaces_share_the_kernel_slice() {
    let mut mem = test_memory();
    let a = mem.create_user_page_table();
    let b = mem.create_user_page_table();
    let mut i = 0;
    while i < KERNEL_SLICE_LEN {
        assert_eq!(mem.space_slice_entry(a, i), mem.kernel_slice_entry(i));
        assert_eq!(mem.space_slice_entry(a, i), mem.space_slice_entry(b, i));
        i += 1;
    }
}

#[test]
fn page_table_swap_isolates_writes() {
    let mut mem = test_memory();
    let page = USER_STACK_START;

    let a = mem.create_user_page_table();
    mem.switch_to_user_page_table(a);
    mem.map_ram_user(page, FLAG_WRITABLE);
    mem.write_u64(page, 42);

    let b = mem.create_user_page_table();
    mem.switch_to_user_page_table(b);
    mem.map_ram_user(page, FLAG_WRITABLE);
    mem.write_u64(page, 666);

    mem.switch_to_kernel_page_table();
    assert_eq!(mem.translate(page), None);

    mem.switch_to_user_page_table(a);
    assert_eq!(mem.read_u64(page), 42);

    mem.switch_to_user_page_table(b);
    assert_eq!(mem.read_u64(page), 666);
}

#[test]
fn kernel_mappings_are_visible_from_user_spaces() {
    let mut mem = test_memory();
    let kpage = KERNEL_HEAP_START + 0x2000;
    let frame = mem.map_ram_kernel(kpage, FLAG_WRITABLE);
    let a = mem.create_user_page_table();
    mem.switch_to_user_page_table(a);
    assert_eq!(mem.translate(kpage), Some(frame));
}

#[test]
fn ramdisk_range_walk_requires_contiguous_frames() {
    let mut mem = test_memory();
    let base = KERNEL_DYNAMIC_START;
    // the bootloader backed the RAM disk with three consecutive frames
    mem.map_frame(base, FLAG_WRITABLE, 0x90000);
    mem.map_frame(base + 4096, FLAG_WRITABLE, 0x91000);
    mem.map_frame(base + 2 * 4096, FLAG_WRITABLE, 0x92000);
    assert_eq!(mem.ramdisk_physical_range(base, 3 * 4096), Some((0x90000, 0x92000)));
    assert_eq!(mem.ramdisk_physical_range(base + 100, 4096), Some((0x90000, 0x91000)));
    // an unmapped page in the walk
    assert_eq!(mem.ramdisk_physical_range(base, 4 * 4096), None);
}

#[test]
fn ramdisk_range_walk_rejects_scattered_frames() {
    let mut mem = test_memory();
    let base = KERNEL_DYNAMIC_START;
    mem.map_frame(base, FLAG_WRITABLE, 0x90000);
    mem.map_frame(base + 4096, FLAG_WRITABLE, 0xa0000);
    assert_eq!(mem.ramdisk_physical_range(base, 2 * 4096), None);
}
