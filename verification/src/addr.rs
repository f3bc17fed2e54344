//! The static virtual-address layout.
//!
//! A virtual address is assembled from its four page-table indices and a page
//! offset. The kernel owns a fixed slice of top-level (L4) indices that is
//! identical in every address space; the user half is disjoint and reserves
//! windows for code, stack (with a guard page) and the user heap.

use vstd::prelude::*;

verus! {

/// Size of each kernel stack (BSP and per-AP), guard page not included.
pub const KERNEL_STACK_SIZE: u64 = 4096 * 1024;
/// Upper bound on the number of cores the per-core table can hold.
pub const MAX_CORES: u64 = 256;
/// Size of the user stack window, the guard page included.
pub const USER_STACK_SIZE: u64 = 4096 * 4096;

/// First L4 index of the kernel slice (inclusive).
pub const KERNEL_L4_FIRST: u64 = 100;
/// Last L4 index of the kernel slice (exclusive).
pub const KERNEL_L4_END: u64 = 116;

/// Lowest kernel virtual address.
pub const KERNEL_START: u64 = 100u64 << 39;
/// Start of the window the bootloader fills with dynamic mappings.
pub const KERNEL_DYNAMIC_START: u64 = (100u64 << 39) | (1u64 << 12);
/// End of the dynamic window; the kernel heap begins here.
pub const KERNEL_DYNAMIC_END: u64 = 108u64 << 39;
/// Base of the kernel heap window.
pub const KERNEL_HEAP_START: u64 = 108u64 << 39;
/// Base of the per-AP kernel stack window.
pub const KERNEL_AP_STACKS: u64 = 109u64 << 39;
/// End of the kernel range (exclusive).
pub const KERNEL_END: u64 = 116u64 << 39;

/// Lowest user virtual address.
pub const USER_START: u64 = 0;
/// Lowest address of the user stack window; the first page is the guard page.
pub const USER_STACK_START: u64 = 4u64 << 30;
/// Base of the user heap window.
pub const USER_HEAP_START: u64 = 8u64 << 30;
/// End of the user range (exclusive).
pub const USER_END: u64 = 1u64 << 39;

/// The virtual address with page-table indices `(l4, l3, l2, l1)` and byte
/// offset `offset` within the page.
pub open spec fn spec_build_addr(l4: u64, l3: u64, l2: u64, l1: u64, offset: u64) -> u64 {
    (l4 << 39) | (l3 << 30) | (l2 << 21) | (l1 << 12) | offset
}

/// Assembles a virtual address from its four page-table indices and the byte
/// offset within the page.
pub fn build_addr(l4: u32, l3: u32, l2: u32, l1: u32, offset: u32) -> (r: u64)
    requires
        l4 < 512,
        l3 < 512,
        l2 < 512,
        l1 < 512,
        offset < 4096,
    ensures
        r == spec_build_addr(l4 as u64, l3 as u64, l2 as u64, l1 as u64, offset as u64),
{
    (l4 as u64) << 39 | (l3 as u64) << 30 | (l2 as u64) << 21 | (l1 as u64) << 12 | (offset as u64)
}

/// The L4 index of a virtual address.
pub open spec fn spec_l4_index(addr: u64) -> u64 {
    (addr >> 39) & 511
}

/// Splits a virtual address into its four page-table indices and the byte
/// offset within the page.
pub fn split_addr(addr: u64) -> (r: (u64, u64, u64, u64, u64))
    ensures
        r.0 == spec_l4_index(addr),
        r.1 == (addr >> 30) & 511,
        r.2 == (addr >> 21) & 511,
        r.3 == (addr >> 12) & 511,
        r.4 == addr & 4095,
{
    (
        (addr >> 39) & 511,
        (addr >> 30) & 511,
        (addr >> 21) & 511,
        (addr >> 12) & 511,
        addr & 4095,
    )
}

/// Splitting an assembled address yields the indices and offset it was built
/// from: the layout loses no information below bit 48.
pub proof fn lemma_split_build_addr(l4: u64, l3: u64, l2: u64, l1: u64, offset: u64)
    requires
        l4 < 512,
        l3 < 512,
        l2 < 512,
        l1 < 512,
        offset < 4096,
    ensures
        spec_l4_index(spec_build_addr(l4, l3, l2, l1, offset)) == l4,
        (spec_build_addr(l4, l3, l2, l1, offset) >> 30) & 511 == l3,
        (spec_build_addr(l4, l3, l2, l1, offset) >> 21) & 511 == l2,
        (spec_build_addr(l4, l3, l2, l1, offset) >> 12) & 511 == l1,
        spec_build_addr(l4, l3, l2, l1, offset) & 4095 == offset,
{
    assert(
        l4 < 512 && l3 < 512 && l2 < 512 && l1 < 512 && offset < 4096 ==> {
            let a = (l4 << 39) | (l3 << 30) | (l2 << 21) | (l1 << 12) | offset;
            &&& (a >> 39) & 511 == l4
            &&& (a >> 30) & 511 == l3
            &&& (a >> 21) & 511 == l2
            &&& (a >> 12) & 511 == l1
            &&& a & 4095 == offset
        }
    ) by (bit_vector);
}

/// Whether `addr` lies in the kernel half of the layout.
pub open spec fn in_kernel_range(addr: u64) -> bool {
    KERNEL_START <= addr < KERNEL_END
}

/// Whether `addr` lies in the user half of the layout.
pub open spec fn in_user_range(addr: u64) -> bool {
    USER_START <= addr < USER_END
}

/// Whether `addr` is the base of a 4 KiB page.
pub open spec fn page_aligned(addr: u64) -> bool {
    addr % 4096 == 0
}

/// The two halves of the layout are ordered and disjoint: the user range
/// ends below the kernel range.
pub proof fn lemma_ranges_disjoint()
    ensures
        USER_END <= KERNEL_START,
        KERNEL_START < KERNEL_DYNAMIC_START,
        KERNEL_DYNAMIC_START < KERNEL_DYNAMIC_END,
        KERNEL_DYNAMIC_END == KERNEL_HEAP_START,
        KERNEL_HEAP_START < KERNEL_AP_STACKS,
        KERNEL_AP_STACKS < KERNEL_END,
        USER_START < USER_STACK_START,
        USER_STACK_START < USER_HEAP_START,
        USER_HEAP_START < USER_END,
        forall|a: u64| !(in_kernel_range(a) && in_user_range(a)),
        KERNEL_START % 4096 == 0,
        KERNEL_DYNAMIC_END % 4096 == 0,
        KERNEL_HEAP_START % 4096 == 0,
        KERNEL_AP_STACKS % 4096 == 0,
        KERNEL_END % 4096 == 0,
        USER_STACK_START % 4096 == 0,
        USER_HEAP_START % 4096 == 0,
        USER_END % 4096 == 0,
        KERNEL_START == 0x3200_0000_0000,
        KERNEL_DYNAMIC_START == 0x3200_0000_1000,
        KERNEL_DYNAMIC_END == 0x3600_0000_0000,
        KERNEL_HEAP_START == 0x3600_0000_0000,
        KERNEL_AP_STACKS == 0x3680_0000_0000,
        KERNEL_END == 0x3A00_0000_0000,
        USER_STACK_START == 0x1_0000_0000,
        USER_HEAP_START == 0x2_0000_0000,
        USER_END == 0x80_0000_0000,
{
    assert((100u64 << 39) == 0x3200_0000_0000 && ((100u64 << 39) | (1u64 << 12))
        == 0x3200_0000_1000 && (108u64 << 39) == 0x3600_0000_0000 && (109u64 << 39)
        == 0x3680_0000_0000 && (116u64 << 39) == 0x3A00_0000_0000 && (4u64 << 30)
        == 0x1_0000_0000 && (8u64 << 30) == 0x2_0000_0000 && (1u64 << 39) == 0x80_0000_0000)
        by (bit_vector);
    assert((100u64 << 39) % 4096 == 0 && (108u64 << 39) % 4096 == 0 && (109u64 << 39) % 4096 == 0
        && (116u64 << 39) % 4096 == 0 && (4u64 << 30) % 4096 == 0 && (8u64 << 30) % 4096 == 0 && (
    1u64 << 39) % 4096 == 0) by (bit_vector);
    assert((1u64 << 39) <= (100u64 << 39) && (100u64 << 39) < ((100u64 << 39) | (1u64 << 12)) && ((
    100u64 << 39) | (1u64 << 12)) < (108u64 << 39) && (108u64 << 39) < (109u64 << 39) && (109u64
        << 39) < (116u64 << 39) && 0u64 < (4u64 << 30) && (4u64 << 30) < (8u64 << 30) && (8u64
        << 30) < (1u64 << 39)) by (bit_vector);
}

} // verus!
