//! Kernel and user heap growth.
//!
//! Both heaps are buddy allocators with a rescue callback: when a request
//! cannot be satisfied, the callback rounds a growth size up so that the
//! new total is at least a power of two and at least twice the size needed
//! for the failed request, maps fresh RAM frames consecutively at the
//! heap's current end inside its reserved virtual window, and feeds the new
//! span back to the buddy. The buddy allocator itself manages raw memory
//! and stays outside the library; the growth arithmetic and the mapping it
//! drives are verified here.

use vstd::prelude::*;

use crate::addr::{KERNEL_AP_STACKS, KERNEL_HEAP_START, USER_END, USER_HEAP_START};
use crate::paging::{range_mappings, span_page, unchanged_but_kernel_half, unchanged_but_user_half,
    Memory, FLAG_NO_EXECUTE, FLAG_PRESENT, FLAG_USER_ACCESSIBLE, FLAG_WRITABLE};

verus! {

/// Two to the power `e`.
pub open spec fn pow2(e: nat) -> nat
    decreases e,
{
    if e == 0 {
        1
    } else {
        2 * pow2((e - 1) as nat)
    }
}

/// Whether `x` is a power of two.
pub open spec fn is_pow2(x: int) -> bool {
    exists|e: nat| x == pow2(e)
}

/// The power-of-two search from candidate `p`: doubles until it reaches
/// `x`.
pub open spec fn next_pow2_from(p: nat, x: nat) -> nat
    decreases (if p < x {
        (x - p) as nat
    } else {
        0
    }),
{
    if p == 0 {
        1
    } else if p >= x {
        p
    } else {
        next_pow2_from(2 * p, x)
    }
}

/// The smallest power of two that is at least `x` (and at least one).
pub open spec fn spec_next_pow2(x: nat) -> nat {
    next_pow2_from(1, x)
}

/// `x` rounded up to a multiple of `align`.
pub open spec fn spec_align_up_to(x: int, align: int) -> int {
    ((x + align - 1) / align) * align
}

/// The smallest power of two that is at least `x`.
pub fn next_pow2(x: u64) -> (r: u64)
    requires
        x <= 0x4000_0000_0000_0000,
    ensures
        r == spec_next_pow2(x as nat),
        is_pow2(r as int),
        r >= 1,
        r >= x,
        r == 1 || r / 2 < x,
{
    let mut p: u64 = 1;
    proof {
        assert(1nat == pow2(0));
    }
    while p < x
        invariant
            x <= 0x4000_0000_0000_0000,
            is_pow2(p as int),
            p >= 1,
            p == 1 || p / 2 < x,
            spec_next_pow2(x as nat) == next_pow2_from(p as nat, x as nat),
        decreases 2 * x - p,
    {
        proof {
            let e = choose|e: nat| p as int == pow2(e);
            assert(2 * p as int == pow2(e + 1));
            assert(next_pow2_from(p as nat, x as nat) == next_pow2_from(2 * p as nat, x as nat));
        }
        p = p * 2;
    }
    p
}

/// `x` rounded up to a multiple of `align`.
pub fn align_up_to(x: u64, align: u64) -> (r: u64)
    requires
        1 <= align,
        x + align <= u64::MAX,
    ensures
        r == spec_align_up_to(x as int, align as int),
        r >= x,
        r < x + align,
        r % align == 0,
{
    proof {
        let a = align as int;
        let v = x as int;
        assert(((v + a - 1) / a) * a % a == 0 && v <= ((v + a - 1) / a) * a < v + a)
            by (nonlinear_arith)
            requires
                a >= 1,
                v >= 0,
        ;
    }
    ((x + align - 1) / align) * align
}

/// One heap's growth state: its virtual base and how many bytes of its
/// window have been mapped and handed to the buddy allocator.
pub struct HeapState {
    /// The virtual base of the heap's reserved window.
    pub base: u64,
    /// How many bytes the buddy allocator has been given.
    pub total_bytes: u64,
}

/// A fresh user heap at the user heap window, empty until its first growth.
pub fn create_user_heap() -> (r: HeapState)
    ensures
        r.base == USER_HEAP_START,
        r.total_bytes == 0,
{
    HeapState { base: USER_HEAP_START, total_bytes: 0 }
}

/// A fresh kernel heap at the kernel heap window.
pub fn create_kernel_heap() -> (r: HeapState)
    ensures
        r.base == KERNEL_HEAP_START,
        r.total_bytes == 0,
{
    HeapState { base: KERNEL_HEAP_START, total_bytes: 0 }
}

/// The rescue arithmetic: for a failed request of `size` bytes at alignment
/// `align` on a heap of `old_size` bytes, returns `(min_size_to_add,
/// new_total)`: the minimum addition is the aligned request rounded up to
/// a power of two, and the new total is the larger of the next power of
/// two above `min + old` and twice the minimum addition.
pub fn heap_growth(old_size: u64, align: u64, size: u64) -> (r: (u64, u64))
    requires
        1 <= align,
        old_size + align + size <= 0x1000_0000_0000_0000,
    ensures
        r.0 == spec_next_pow2(
            (spec_align_up_to(old_size as int, align as int) - old_size + size) as nat,
        ),
        r.1 == (if spec_next_pow2((r.0 + old_size) as nat) > 2 * r.0 {
            spec_next_pow2((r.0 + old_size) as nat)
        } else {
            (2 * r.0) as nat
        }),
        is_pow2(r.0 as int),
        r.0 >= spec_align_up_to(old_size as int, align as int) - old_size + size,
        r.0 >= 1,
        r.0 >= size,
        r.1 >= old_size + size,
        r.1 > old_size,
        r.1 >= old_size + r.0,
        r.1 >= 2 * r.0,
        is_pow2(r.1 as int) || r.1 == 2 * r.0,
        r.1 <= 4 * (old_size + align + size) + 4,
{
    let aligned = align_up_to(old_size, align);
    let min_size_to_add = next_pow2(aligned - old_size + size);
    let candidate = next_pow2(min_size_to_add + old_size);
    let doubled = min_size_to_add * 2;
    let new_total = if candidate > doubled {
        candidate
    } else {
        doubled
    };
    (min_size_to_add, new_total)
}

/// The minimum addition the rescue computes for a failed request.
pub open spec fn spec_growth_min(old_size: u64, align: u64, size: u64) -> nat {
    spec_next_pow2((spec_align_up_to(old_size as int, align as int) - old_size + size) as nat)
}

/// The new total the rescue computes for a failed request.
pub open spec fn spec_growth_total(old_size: u64, align: u64, size: u64) -> nat {
    let m = spec_growth_min(old_size, align, size);
    if spec_next_pow2((m + old_size) as nat) > 2 * m {
        spec_next_pow2((m + old_size) as nat)
    } else {
        2 * m
    }
}

/// How many whole pages cover the rescue's added span.
pub open spec fn spec_growth_pages(old_size: u64, align: u64, size: u64) -> nat {
    (((spec_growth_total(old_size, align, size) - old_size) + 4095) / 4096) as nat
}

/// Grows the user heap: computes the growth for the failed request, maps
/// the covering pages writable and non-executable at the heap's current
/// end, and accounts the whole mapped span to the buddy allocator.
pub fn grow_user_heap(mem: &mut Memory, heap: &mut HeapState, align: u64, size: u64)
    requires
        old(mem).wf(),
        old(heap).base == USER_HEAP_START,
        old(heap).total_bytes % 4096 == 0,
        1 <= align,
        old(heap).total_bytes + align + size <= 0x1000_0000_0000_0000,
        old(heap).total_bytes + 4 * (old(heap).total_bytes + align + size) + 8192 <= USER_END
            - USER_HEAP_START,
        old(mem).free_list().len() >= (4 * (old(heap).total_bytes + align + size)) / 4096 + 3,
        forall|k: int|
            0 <= k < (USER_END - USER_HEAP_START) / 4096 ==> !old(mem).user_maps_page(
                old(mem).active_space(),
                #[trigger] span_page((USER_HEAP_START + old(heap).total_bytes) as u64, k),
            ),
    ensures
        final(mem).wf(),
        final(heap).base == USER_HEAP_START,
        final(heap).total_bytes % 4096 == 0,
        final(heap).total_bytes > old(heap).total_bytes,
        final(heap).total_bytes - old(heap).total_bytes >= size,
        final(heap).total_bytes == old(heap).total_bytes + spec_growth_pages(
            old(heap).total_bytes,
            align,
            size,
        ) * 4096,
        final(mem).user_map() == old(mem).user_map() + range_mappings(
            old(mem).active_space(),
            (USER_HEAP_START + old(heap).total_bytes) as u64,
            spec_growth_pages(old(heap).total_bytes, align, size) as u64,
            FLAG_WRITABLE | FLAG_NO_EXECUTE | FLAG_USER_ACCESSIBLE | FLAG_PRESENT,
            old(mem).free_list(),
        ),
        final(mem).free_list() == old(mem).free_list().take(
            old(mem).free_list().len() - spec_growth_pages(old(heap).total_bytes, align, size),
        ),
        unchanged_but_user_half(*old(mem), *final(mem)),
{
    let old_total = heap.total_bytes;
    let (min_add, new_total) = heap_growth(old_total, align, size);
    let added = new_total - old_total;
    let page_count = (added + 4095) / 4096;
    proof {
        assert(added == spec_growth_total(old_total, align, size) - old_total);
        assert(page_count == spec_growth_pages(old_total, align, size));
    }
    let start = USER_HEAP_START + old_total;
    proof {
        crate::addr::lemma_ranges_disjoint();
        assert((added as int + 4095) / 4096 * 4096 >= added as int && (added as int + 4095) / 4096
            <= added as int / 4096 + 1) by (nonlinear_arith)
            requires
                added >= 0,
        ;
        assert(page_count * 4096 >= added && page_count <= added / 4096 + 1) by (nonlinear_arith)
            requires
                page_count == (added as int + 4095) / 4096,
                added >= 0,
        ;
        assert(start % 4096 == 0) by (nonlinear_arith)
            requires
                start == USER_HEAP_START + old_total,
                USER_HEAP_START % 4096 == 0,
                old_total % 4096 == 0,
        ;
        assert(4096 * ((page_count - 1) as int) < 4096 * (page_count as int));
    }
    mem.map_ram_user_range(start, page_count, FLAG_WRITABLE | FLAG_NO_EXECUTE);
    heap.total_bytes = old_total + page_count * 4096;
    proof {
        assert(heap.total_bytes % 4096 == 0) by (nonlinear_arith)
            requires
                heap.total_bytes == old_total + page_count * 4096,
                old_total % 4096 == 0,
        ;
    }
}

/// Grows the kernel heap the same way, inside the kernel heap window.
pub fn grow_kernel_heap(mem: &mut Memory, heap: &mut HeapState, align: u64, size: u64)
    requires
        old(mem).wf(),
        old(heap).base == KERNEL_HEAP_START,
        old(heap).total_bytes % 4096 == 0,
        1 <= align,
        old(heap).total_bytes + align + size <= 0x1000_0000_0000_0000,
        old(heap).total_bytes + 4 * (old(heap).total_bytes + align + size) + 8192
            <= KERNEL_AP_STACKS - KERNEL_HEAP_START,
        old(mem).free_list().len() >= (4 * (old(heap).total_bytes + align + size)) / 4096 + 3,
        forall|k: int|
            0 <= k < (KERNEL_AP_STACKS - KERNEL_HEAP_START) / 4096 ==> !old(mem).kernel_maps_page(
                #[trigger] span_page((KERNEL_HEAP_START + old(heap).total_bytes) as u64, k),
            ),
    ensures
        final(mem).wf(),
        final(heap).base == KERNEL_HEAP_START,
        final(heap).total_bytes % 4096 == 0,
        final(heap).total_bytes > old(heap).total_bytes,
        final(heap).total_bytes - old(heap).total_bytes >= size,
        final(heap).total_bytes == old(heap).total_bytes + spec_growth_pages(
            old(heap).total_bytes,
            align,
            size,
        ) * 4096,
        final(mem).kernel_map() == old(mem).kernel_map() + range_mappings(
            0,
            (KERNEL_HEAP_START + old(heap).total_bytes) as u64,
            spec_growth_pages(old(heap).total_bytes, align, size) as u64,
            FLAG_WRITABLE | FLAG_NO_EXECUTE | FLAG_PRESENT,
            old(mem).free_list(),
        ),
        final(mem).free_list() == old(mem).free_list().take(
            old(mem).free_list().len() - spec_growth_pages(old(heap).total_bytes, align, size),
        ),
        unchanged_but_kernel_half(*old(mem), *final(mem)),
{
    let old_total = heap.total_bytes;
    let (min_add, new_total) = heap_growth(old_total, align, size);
    let added = new_total - old_total;
    let page_count = (added + 4095) / 4096;
    proof {
        assert(added == spec_growth_total(old_total, align, size) - old_total);
        assert(page_count == spec_growth_pages(old_total, align, size));
    }
    let start = KERNEL_HEAP_START + old_total;
    proof {
        crate::addr::lemma_ranges_disjoint();
        assert((added as int + 4095) / 4096 * 4096 >= added as int && (added as int + 4095) / 4096
            <= added as int / 4096 + 1) by (nonlinear_arith)
            requires
                added >= 0,
        ;
        assert(page_count * 4096 >= added && page_count <= added / 4096 + 1) by (nonlinear_arith)
            requires
                page_count == (added as int + 4095) / 4096,
                added >= 0,
        ;
        assert(start % 4096 == 0) by (nonlinear_arith)
            requires
                start == KERNEL_HEAP_START + old_total,
                KERNEL_HEAP_START % 4096 == 0,
                old_total % 4096 == 0,
        ;
        assert(4096 * ((page_count - 1) as int) < 4096 * (page_count as int));
        assert((FLAG_WRITABLE | FLAG_NO_EXECUTE) & FLAG_USER_ACCESSIBLE == 0) by (bit_vector);
    }
    mem.map_ram_kernel_range(start, page_count, FLAG_WRITABLE | FLAG_NO_EXECUTE);
    heap.total_bytes = old_total + page_count * 4096;
    proof {
        assert(heap.total_bytes % 4096 == 0) by (nonlinear_arith)
            requires
                heap.total_bytes == old_total + page_count * 4096,
                old_total % 4096 == 0,
        ;
    }
}

} // verus!
