//! The virtual-memory manager.
//!
//! The kernel wraps the active hardware page table and the frame allocator
//! under one lock; switching the page-table base register selects which
//! address space the mapping operations act on. Here the page-table state is
//! explicit: one shared kernel half, a user half per address space, and an
//! `active` selector standing for the base register. The fixed kernel slice
//! of the top-level table is carried per space and is, by invariant,
//! identical across every address space.
//!
//! Frame ownership is the central invariant: every 4 KiB frame is either on
//! the allocator's free list or owned by exactly one mapping (or one
//! top-level table), and the number of free frames plus the number of owned
//! RAM frames is constant.

use vstd::prelude::*;

use crate::addr::{in_kernel_range, in_user_range, page_aligned, KERNEL_START};
use crate::frames::{frame_in_pool, regions_bounded, regions_disjoint, BootInfoFrameAllocator,
    MemoryRegion};

verus! {

/// Number of top-level entries in the kernel slice.
pub const KERNEL_SLICE_LEN: usize = 16;

/// The PRESENT page-table flag.
pub const FLAG_PRESENT: u64 = 1;
/// The WRITABLE page-table flag.
pub const FLAG_WRITABLE: u64 = 2;
/// The USER_ACCESSIBLE page-table flag.
pub const FLAG_USER_ACCESSIBLE: u64 = 4;
/// The WRITE_THROUGH page-table flag.
pub const FLAG_WRITE_THROUGH: u64 = 8;
/// The NO_CACHE page-table flag.
pub const FLAG_NO_CACHE: u64 = 16;
/// The NO_EXECUTE page-table flag.
pub const FLAG_NO_EXECUTE: u64 = 0x8000_0000_0000_0000;

/// One page-to-frame mapping. `domain` is 0 for the shared kernel half and
/// `h + 1` for the user half of address space `h` (the kernel address space
/// itself has user-half domain 0 as well, distinguished by the page range).
/// `ram` records whether the frame was drawn from the frame allocator.
#[derive(Clone, Copy)]
pub struct Mapping {
    /// Which user half the mapping belongs to (see above).
    pub domain: usize,
    /// Virtual page base address.
    pub page: u64,
    /// Physical frame base address.
    pub frame: u64,
    /// The page-table flags of the mapping.
    pub flags: u64,
    /// Whether the frame came from the frame allocator.
    pub ram: bool,
}

/// How many mappings in `ms` own a frame drawn from the frame allocator.
pub open spec fn count_ram(ms: Seq<Mapping>) -> nat
    decreases ms.len(),
{
    if ms.len() == 0 {
        0
    } else {
        count_ram(ms.drop_last()) + if ms.last().ram {
            1nat
        } else {
            0nat
        }
    }
}

proof fn lemma_count_ram_push(ms: Seq<Mapping>, m: Mapping)
    ensures
        count_ram(ms.push(m)) == count_ram(ms) + if m.ram {
            1nat
        } else {
            0nat
        },
{
    assert(ms.push(m).drop_last() =~= ms);
}

proof fn lemma_count_ram_update(ms: Seq<Mapping>, k: int, m: Mapping)
    requires
        0 <= k < ms.len(),
        m.ram == ms[k].ram,
    ensures
        count_ram(ms.update(k, m)) == count_ram(ms),
    decreases ms.len(),
{
    if k == ms.len() - 1 {
        assert(ms.update(k, m).drop_last() =~= ms.drop_last());
        assert(ms.update(k, m).last() == m);
    } else {
        lemma_count_ram_update(ms.drop_last(), k, m);
        assert(ms.update(k, m).drop_last() =~= ms.drop_last().update(k, m));
        assert(ms.update(k, m).last() == ms.last());
    }
}

proof fn lemma_count_ram_remove(ms: Seq<Mapping>, k: int)
    requires
        0 <= k < ms.len(),
    ensures
        count_ram(ms) == count_ram(ms.remove(k)) + if ms[k].ram {
            1nat
        } else {
            0nat
        },
    decreases ms.len(),
{
    if k == ms.len() - 1 {
        assert(ms.remove(k) =~= ms.drop_last());
    } else {
        lemma_count_ram_remove(ms.drop_last(), k);
        assert(ms.remove(k).drop_last() =~= ms.drop_last().remove(k));
        assert(ms.remove(k).last() == ms.last());
    }
}

/// One user address space: the kernel slice of its top-level table and the
/// frame that holds the top-level table itself.
pub struct AddressSpace {
    l4_slice: Vec<u64>,
    l4_frame: u64,
}

impl AddressSpace {
    /// The kernel slice of this space's top-level table.
    pub closed spec fn slice(self) -> Seq<u64> {
        self.l4_slice@
    }

    /// The frame holding this space's top-level table.
    pub closed spec fn table_frame(self) -> u64 {
        self.l4_frame
    }
}

/// The memory manager: frame allocator plus explicit page-table state.
pub struct Memory {
    alloc: BootInfoFrameAllocator,
    kernel_maps: Vec<Mapping>,
    user_maps: Vec<Mapping>,
    kernel_l4_slice: Vec<u64>,
    spaces: Vec<AddressSpace>,
    active: usize,
    store: Vec<(u64, u64)>,
    loaned: u64,
}

impl Memory {
    /// The allocator's free list.
    pub closed spec fn free_list(self) -> Seq<u64> {
        self.alloc.free_list()
    }

    /// The total number of frames the pool was built with.
    pub closed spec fn total(self) -> u64 {
        self.alloc.total()
    }

    /// The shared kernel-half mappings.
    pub closed spec fn kernel_map(self) -> Seq<Mapping> {
        self.kernel_maps@
    }

    /// All user-half mappings, over every address space.
    pub closed spec fn user_map(self) -> Seq<Mapping> {
        self.user_maps@
    }

    /// The kernel slice of the kernel address space's top-level table.
    pub closed spec fn kernel_slice(self) -> Seq<u64> {
        self.kernel_l4_slice@
    }

    /// The user address spaces created so far.
    pub closed spec fn spaces_seq(self) -> Seq<AddressSpace> {
        self.spaces@
    }

    /// How many user address spaces exist.
    pub open spec fn space_count(self) -> nat {
        self.spaces_seq().len()
    }

    /// The active address space: 0 for the kernel space, `h + 1` for user
    /// space `h`. This stands for the hardware page-table base register.
    pub closed spec fn active_space(self) -> usize {
        self.active
    }

    /// The per-frame memory cells written through `write_u64`.
    pub closed spec fn store_seq(self) -> Seq<(u64, u64)> {
        self.store@
    }

    /// How many RAM frames `unmap` has handed to callers without freeing
    /// them (`unmap` returns the frame; ownership passes to the caller).
    pub closed spec fn loaned_frames(self) -> u64 {
        self.loaned
    }

    /// Whether the kernel half maps `page`.
    pub open spec fn kernel_maps_page(self, page: u64) -> bool {
        exists|k: int| 0 <= k < self.kernel_map().len() && (#[trigger] self.kernel_map()[k]).page == page
    }

    /// The kernel-half mapping of `page`.
    pub open spec fn kernel_mapping(self, page: u64) -> Mapping {
        self.kernel_map()[choose|k: int|
            0 <= k < self.kernel_map().len() && (#[trigger] self.kernel_map()[k]).page == page]
    }

    /// Whether user-half `domain` maps `page`.
    pub open spec fn user_maps_page(self, domain: usize, page: u64) -> bool {
        exists|k: int|
            0 <= k < self.user_map().len() && (#[trigger] self.user_map()[k]).domain == domain
                && self.user_map()[k].page == page
    }

    /// The mapping of `page` in user-half `domain`.
    pub open spec fn user_mapping(self, domain: usize, page: u64) -> Mapping {
        self.user_map()[choose|k: int|
            0 <= k < self.user_map().len() && (#[trigger] self.user_map()[k]).domain == domain
                && self.user_map()[k].page == page]
    }

    /// Whether the active address space maps `page`, routing by the page's
    /// half of the layout.
    pub open spec fn active_maps_page(self, page: u64) -> bool {
        if in_kernel_range(page) {
            self.kernel_maps_page(page)
        } else {
            self.user_maps_page(self.active_space(), page)
        }
    }

    /// The active space's mapping of `page`.
    pub open spec fn active_mapping(self, page: u64) -> Mapping {
        if in_kernel_range(page) {
            self.kernel_mapping(page)
        } else {
            self.user_mapping(self.active_space(), page)
        }
    }

    /// Whether some mapping or top-level table owns frame `f`.
    pub open spec fn frame_owned(self, f: u64) -> bool {
        ||| exists|k: int| 0 <= k < self.kernel_map().len() && (#[trigger] self.kernel_map()[k]).frame == f
        ||| exists|k: int| 0 <= k < self.user_map().len() && (#[trigger] self.user_map()[k]).frame == f
        ||| exists|h: int| 0 <= h < self.spaces_seq().len() && (#[trigger] self.spaces_seq()[h]).table_frame() == f
    }

    /// The value stored in the cell of frame `f`, if one was written.
    pub open spec fn store_lookup(self, f: u64) -> Option<u64> {
        if exists|k: int| 0 <= k < self.store_seq().len() && (#[trigger] self.store_seq()[k]).0 == f {
            Some(
                self.store_seq()[choose|k: int|
                    0 <= k < self.store_seq().len() && (#[trigger] self.store_seq()[k]).0 == f].1,
            )
        } else {
            None
        }
    }

    /// Well-formedness of the whole manager.
    pub closed spec fn wf(self) -> bool {
        &&& self.alloc.wf()
        // kernel half: kernel-range pages, all distinct, everything aligned
        &&& forall|k: int|
            0 <= k < self.kernel_maps@.len() ==> in_kernel_range(
                (#[trigger] self.kernel_maps@[k]).page,
            ) && page_aligned(self.kernel_maps@[k].page) && page_aligned(
                self.kernel_maps@[k].frame,
            )
        &&& forall|i: int, j: int|
            0 <= i < j < self.kernel_maps@.len() ==> (#[trigger] self.kernel_maps@[i]).page != (
            #[trigger] self.kernel_maps@[j]).page
        // user halves: user-range pages, distinct per domain, aligned
        &&& forall|k: int|
            0 <= k < self.user_maps@.len() ==> in_user_range(
                (#[trigger] self.user_maps@[k]).page,
            ) && page_aligned(self.user_maps@[k].page) && page_aligned(self.user_maps@[k].frame)
                && self.user_maps@[k].domain <= self.spaces@.len()
        &&& forall|i: int, j: int|
            0 <= i < j < self.user_maps@.len() ==> !((#[trigger] self.user_maps@[i]).domain == (
            #[trigger] self.user_maps@[j]).domain && self.user_maps@[i].page
                == self.user_maps@[j].page)
        // the kernel slice is identical across every address space
        &&& self.kernel_l4_slice@.len() == KERNEL_SLICE_LEN
        &&& forall|h: int|
            0 <= h < self.spaces@.len() ==> (#[trigger] self.spaces@[h]).slice()
                =~= self.kernel_l4_slice@
        &&& self.active <= self.spaces@.len()
        // each frame is owned at most once
        &&& forall|i: int, j: int|
            0 <= i < j < self.kernel_maps@.len() ==> (#[trigger] self.kernel_maps@[i]).frame != (
            #[trigger] self.kernel_maps@[j]).frame
        &&& forall|i: int, j: int|
            0 <= i < j < self.user_maps@.len() ==> (#[trigger] self.user_maps@[i]).frame != (
            #[trigger] self.user_maps@[j]).frame
        &&& forall|i: int, j: int|
            0 <= i < j < self.spaces@.len() ==> (#[trigger] self.spaces@[i]).table_frame() != (
            #[trigger] self.spaces@[j]).table_frame()
        &&& forall|i: int, j: int|
            0 <= i < self.kernel_maps@.len() && 0 <= j < self.user_maps@.len() ==> (
            #[trigger] self.kernel_maps@[i]).frame != (#[trigger] self.user_maps@[j]).frame
        &&& forall|i: int, j: int|
            0 <= i < self.kernel_maps@.len() && 0 <= j < self.spaces@.len() ==> (
            #[trigger] self.kernel_maps@[i]).frame != (#[trigger] self.spaces@[j]).table_frame()
        &&& forall|i: int, j: int|
            0 <= i < self.user_maps@.len() && 0 <= j < self.spaces@.len() ==> (
            #[trigger] self.user_maps@[i]).frame != (#[trigger] self.spaces@[j]).table_frame()
        // no free frame is owned
        &&& forall|k: int, i: int|
            0 <= k < self.alloc.free_list().len() && 0 <= i < self.kernel_maps@.len() ==> (
            #[trigger] self.alloc.free_list()[k]) != (#[trigger] self.kernel_maps@[i]).frame
        &&& forall|k: int, i: int|
            0 <= k < self.alloc.free_list().len() && 0 <= i < self.user_maps@.len() ==> (
            #[trigger] self.alloc.free_list()[k]) != (#[trigger] self.user_maps@[i]).frame
        &&& forall|k: int, i: int|
            0 <= k < self.alloc.free_list().len() && 0 <= i < self.spaces@.len() ==> (
            #[trigger] self.alloc.free_list()[k]) != (#[trigger] self.spaces@[i]).table_frame()
        // store cells are keyed by frame, one cell per frame
        &&& forall|i: int, j: int|
            0 <= i < j < self.store@.len() ==> (#[trigger] self.store@[i]).0 != (
            #[trigger] self.store@[j]).0
        // conservation: free frames plus owned or loaned RAM frames is the
        // pool size
        &&& self.alloc.free_list().len() + count_ram(self.kernel_maps@) + count_ram(
            self.user_maps@,
        ) + self.spaces@.len() + self.loaned == self.alloc.total()
    }

    /// Builds the manager from the memory map, the physical range backing
    /// the RAM disk, and the kernel slice of the boot page table.
    pub fn new(
        regions: &Vec<MemoryRegion>,
        ex_lo: u64,
        ex_hi: u64,
        kernel_l4_slice: Vec<u64>,
    ) -> (r: Self)
        requires
            regions_disjoint(regions@),
            regions_bounded(regions@),
            kernel_l4_slice@.len() == KERNEL_SLICE_LEN,
        ensures
            r.wf(),
            r.free_list().len() == r.total(),
            forall|a: u64| r.free_list().contains(a) <==> frame_in_pool(regions@, ex_lo, ex_hi, a),
            r.kernel_map() =~= Seq::<Mapping>::empty(),
            r.user_map() =~= Seq::<Mapping>::empty(),
            r.space_count() == 0,
            r.active_space() == 0,
            r.kernel_slice() == kernel_l4_slice@,
            r.loaned_frames() == 0,
    {
        let alloc = BootInfoFrameAllocator::new(regions, ex_lo, ex_hi);
        Memory {
            alloc,
            kernel_maps: Vec::new(),
            user_maps: Vec::new(),
            kernel_l4_slice,
            spaces: Vec::new(),
            active: 0,
            store: Vec::new(),
            loaned: 0,
        }
    }

    /// How many user address spaces exist.
    pub fn num_spaces(&self) -> (r: usize)
        ensures
            r == self.space_count(),
    {
        self.spaces.len()
    }

    /// How many frames are free.
    pub fn free_frame_count(&self) -> (r: u64)
        requires
            self.wf(),
        ensures
            r == self.free_list().len(),
    {
        self.alloc.free_frames()
    }

    /// The flags of the kernel half's mapping of `page`.
    pub fn kernel_mapping_flags(&self, page: u64) -> (r: u64)
        requires
            self.wf(),
            self.kernel_maps_page(page),
        ensures
            r == self.kernel_mapping(page).flags,
    {
        let idx = self.find_kernel_index(page).unwrap();
        proof {
            let c = choose|c: int|
                0 <= c < self.kernel_map().len() && (#[trigger] self.kernel_map()[c]).page == page;
            if c != idx as int {
                assert(self.kernel_maps@[if c < idx as int {
                    c
                } else {
                    idx as int
                }].page != self.kernel_maps@[if c < idx as int {
                    idx as int
                } else {
                    c
                }].page);
                assert(false);
            }
        }
        self.kernel_maps[idx].flags
    }

    /// Entry `i` of the kernel slice of the kernel top-level table.
    pub fn kernel_slice_entry(&self, i: usize) -> (r: u64)
        requires
            self.wf(),
            i < KERNEL_SLICE_LEN,
        ensures
            r == self.kernel_slice()[i as int],
    {
        self.kernel_l4_slice[i]
    }

    /// Entry `i` of the kernel slice of user space `h`'s top-level table.
    pub fn space_slice_entry(&self, h: usize, i: usize) -> (r: u64)
        requires
            self.wf(),
            h < self.space_count(),
            i < KERNEL_SLICE_LEN,
        ensures
            r == self.spaces_seq()[h as int].slice()[i as int],
    {
        self.spaces[h].l4_slice[i]
    }

    /// Returns `(frames in use, total frames)`.
    pub fn get_memory_utilization(&self) -> (r: (u64, u64))
        requires
            self.wf(),
        ensures
            r.0 == self.total() - self.free_list().len(),
            r.1 == self.total(),
    {
        (self.alloc.total_frames() - self.alloc.free_frames(), self.alloc.total_frames())
    }

    /// Creates a new user address space: one frame is taken from the pool
    /// for its top-level table, whose kernel slice is copied from the active
    /// kernel table so that kernel mappings are shared across every space.
    /// Returns the handle of the new space.
    pub fn create_user_page_table(&mut self) -> (h: usize)
        requires
            old(self).wf(),
            old(self).free_list().len() > 0,
            old(self).space_count() < usize::MAX - 1,
        ensures
            final(self).wf(),
            h == old(self).space_count(),
            final(self).space_count() == old(self).space_count() + 1,
            final(self).spaces_seq()[h as int].slice() =~= old(self).kernel_slice(),
            final(self).spaces_seq()[h as int].table_frame() == old(self).free_list().last(),
            final(self).free_list() == old(self).free_list().drop_last(),
            final(self).total() == old(self).total(),
            final(self).kernel_map() == old(self).kernel_map(),
            final(self).user_map() == old(self).user_map(),
            final(self).kernel_slice() == old(self).kernel_slice(),
            final(self).active_space() == old(self).active_space(),
            final(self).loaned_frames() == old(self).loaned_frames(),
            final(self).store_seq() == old(self).store_seq(),
            forall|g: int|
                0 <= g < old(self).space_count() ==> (#[trigger] final(self).spaces_seq()[g]).slice()
                    == old(self).spaces_seq()[g].slice() && final(self).spaces_seq()[g].table_frame()
                    == old(self).spaces_seq()[g].table_frame(),
    {
        let frame = self.alloc.allocate_frame().unwrap();
        let mut l4_slice: Vec<u64> = Vec::new();
        let mut i: usize = 0;
        while i < self.kernel_l4_slice.len()
            invariant
                i <= self.kernel_l4_slice@.len(),
                l4_slice@ =~= self.kernel_l4_slice@.take(i as int),
            decreases self.kernel_l4_slice@.len() - i,
        {
            let v = self.kernel_l4_slice[i];
            l4_slice.push(v);
            i += 1;
        }
        proof {
            assert(l4_slice@ =~= self.kernel_l4_slice@);
        }
        let h = self.spaces.len();
        self.spaces.push(AddressSpace { l4_slice, l4_frame: frame });
        proof {
            let ghost of = old(self).alloc.free_list();
            assert(self.spaces@.drop_last() =~= old(self).spaces@);
            assert(self.alloc.free_list() == of.drop_last());
            assert(frame == of[of.len() - 1]);
            assert forall|k: int, i: int|
                0 <= k < self.alloc.free_list().len() && 0 <= i < self.kernel_maps@.len() implies (
            #[trigger] self.alloc.free_list()[k]) != (#[trigger] self.kernel_maps@[i]).frame by {
                assert(self.alloc.free_list()[k] == of[k]);
                assert(of[k] != old(self).kernel_maps@[i].frame);
            }
            assert forall|k: int, i: int|
                0 <= k < self.alloc.free_list().len() && 0 <= i < self.user_maps@.len() implies (
            #[trigger] self.alloc.free_list()[k]) != (#[trigger] self.user_maps@[i]).frame by {
                assert(self.alloc.free_list()[k] == of[k]);
                assert(of[k] != old(self).user_maps@[i].frame);
            }
            assert forall|k: int, i: int|
                0 <= k < self.alloc.free_list().len() && 0 <= i < self.spaces@.len() implies (
            #[trigger] self.alloc.free_list()[k]) != (#[trigger] self.spaces@[i]).table_frame() by {
                assert(self.alloc.free_list()[k] == of[k]);
                if i < self.spaces@.len() - 1 {
                    assert(self.spaces@[i].table_frame() == old(self).spaces@[i].table_frame());
                    assert(of[k] != old(self).spaces@[i].table_frame());
                } else {
                    assert(self.spaces@[i].table_frame() == frame);
                    assert(of[k] != of[of.len() - 1]);
                }
            }
            assert forall|i: int, j: int|
                0 <= i < j < self.spaces@.len() implies (#[trigger] self.spaces@[i]).table_frame()
                != (#[trigger] self.spaces@[j]).table_frame() by {
                if j == self.spaces@.len() - 1 {
                    assert(self.spaces@[i].table_frame() == old(self).spaces@[i].table_frame());
                    assert(of[of.len() - 1] != old(self).spaces@[i].table_frame());
                } else {
                    assert(old(self).spaces@[i].table_frame() != old(self).spaces@[j].table_frame());
                }
            }
            assert forall|i: int, j: int|
                0 <= i < self.kernel_maps@.len() && 0 <= j < self.spaces@.len() implies (
            #[trigger] self.kernel_maps@[i]).frame != (#[trigger] self.spaces@[j]).table_frame() by {
                if j == self.spaces@.len() - 1 {
                    assert(of[of.len() - 1] != old(self).kernel_maps@[i].frame);
                } else {
                    assert(old(self).kernel_maps@[i].frame != old(self).spaces@[j].table_frame());
                }
            }
            assert forall|i: int, j: int|
                0 <= i < self.user_maps@.len() && 0 <= j < self.spaces@.len() implies (
            #[trigger] self.user_maps@[i]).frame != (#[trigger] self.spaces@[j]).table_frame() by {
                if j == self.spaces@.len() - 1 {
                    assert(of[of.len() - 1] != old(self).user_maps@[i].frame);
                } else {
                    assert(old(self).user_maps@[i].frame != old(self).spaces@[j].table_frame());
                }
            }
        }
        h
    }

    /// Loads the given user space's top-level table into the base register.
    pub fn switch_to_user_page_table(&mut self, h: usize)
        requires
            old(self).wf(),
            h < old(self).space_count(),
        ensures
            final(self).wf(),
            final(self).active_space() == h + 1,
            final(self).free_list() == old(self).free_list(),
            final(self).total() == old(self).total(),
            final(self).kernel_map() == old(self).kernel_map(),
            final(self).user_map() == old(self).user_map(),
            final(self).kernel_slice() == old(self).kernel_slice(),
            final(self).spaces_seq() == old(self).spaces_seq(),
            final(self).store_seq() == old(self).store_seq(),
            final(self).loaned_frames() == old(self).loaned_frames(),
    {
        let n = self.spaces.len();
        proof {
            assert(h < n);
        }
        self.active = h + 1;
    }

    fn find_kernel_index(&self, page: u64) -> (r: Option<usize>)
        ensures
            r is Some <==> self.kernel_maps_page(page),
            r matches Some(k) ==> 0 <= k < self.kernel_map().len() && self.kernel_map()[
                k as int
            ].page == page,
    {
        let mut i: usize = 0;
        while i < self.kernel_maps.len()
            invariant
                i <= self.kernel_maps@.len(),
                forall|j: int| 0 <= j < i ==> (#[trigger] self.kernel_maps@[j]).page != page,
            decreases self.kernel_maps@.len() - i,
        {
            if self.kernel_maps[i].page == page {
                return Some(i);
            }
            i += 1;
        }
        None
    }

    fn find_user_index(&self, domain: usize, page: u64) -> (r: Option<usize>)
        ensures
            r is Some <==> self.user_maps_page(domain, page),
            r matches Some(k) ==> 0 <= k < self.user_map().len() && self.user_map()[
                k as int
            ].page == page && self.user_map()[k as int].domain == domain,
    {
        let mut i: usize = 0;
        while i < self.user_maps.len()
            invariant
                i <= self.user_maps@.len(),
                forall|j: int|
                    0 <= j < i ==> !((#[trigger] self.user_maps@[j]).domain == domain
                        && self.user_maps@[j].page == page),
            decreases self.user_maps@.len() - i,
        {
            if self.user_maps[i].domain == domain && self.user_maps[i].page == page {
                return Some(i);
            }
            i += 1;
        }
        None
    }

    /// Loads the kernel top-level table into the base register.
    pub fn switch_to_kernel_page_table(&mut self)
        requires
            old(self).wf(),
        ensures
            final(self).wf(),
            final(self).active_space() == 0,
            final(self).free_list() == old(self).free_list(),
            final(self).total() == old(self).total(),
            final(self).kernel_map() == old(self).kernel_map(),
            final(self).user_map() == old(self).user_map(),
            final(self).kernel_slice() == old(self).kernel_slice(),
            final(self).spaces_seq() == old(self).spaces_seq(),
            final(self).store_seq() == old(self).store_seq(),
            final(self).loaned_frames() == old(self).loaned_frames(),
    {
        self.active = 0;
    }

    proof fn lemma_wf_after_kernel_push(self, pre: Memory, frame: u64)
        requires
            pre.wf(),
            pre.free_list().len() > 0,
            frame == pre.free_list().last(),
            self.alloc.free_list() == pre.free_list().drop_last(),
            self.alloc.total() == pre.total(),
            self.alloc.wf(),
            self.kernel_maps@.len() == pre.kernel_maps@.len() + 1,
            self.kernel_maps@ == pre.kernel_maps@.push(self.kernel_maps@.last()),
            self.kernel_maps@.last().frame == frame,
            self.kernel_maps@.last().ram,
            in_kernel_range(self.kernel_maps@.last().page),
            page_aligned(self.kernel_maps@.last().page),
            !pre.kernel_maps_page(self.kernel_maps@.last().page),
            self.user_maps@ == pre.user_maps@,
            self.kernel_l4_slice@ == pre.kernel_l4_slice@,
            self.spaces@ == pre.spaces@,
            self.active == pre.active,
            self.store@ == pre.store@,
            self.loaned == pre.loaned,
        ensures
            self.wf(),
    {
        let of = pre.alloc.free_list();
        let okm = pre.kernel_maps@;
        let m = self.kernel_maps@.last();
        assert(self.kernel_maps@.drop_last() =~= okm);
        lemma_count_ram_push(okm, m);
        assert(page_aligned(frame));
        assert forall|i: int, j: int|
            0 <= i < j < self.kernel_maps@.len() implies (#[trigger] self.kernel_maps@[i]).page
            != (#[trigger] self.kernel_maps@[j]).page by {
            if j == self.kernel_maps@.len() - 1 {
                if okm[i].page == m.page {
                    assert(pre.kernel_map()[i].page == m.page);
                    assert(pre.kernel_maps_page(m.page));
                }
            } else {
                assert(okm[i].page != okm[j].page);
            }
        }
        assert forall|i: int, j: int|
            0 <= i < j < self.kernel_maps@.len() implies (#[trigger] self.kernel_maps@[i]).frame
            != (#[trigger] self.kernel_maps@[j]).frame by {
            if j == self.kernel_maps@.len() - 1 {
                assert(of[of.len() - 1] != okm[i].frame);
            } else {
                assert(okm[i].frame != okm[j].frame);
            }
        }
        assert forall|i: int, j: int|
            0 <= i < self.kernel_maps@.len() && 0 <= j < self.user_maps@.len() implies (
        #[trigger] self.kernel_maps@[i]).frame != (#[trigger] self.user_maps@[j]).frame by {
            if i == self.kernel_maps@.len() - 1 {
                assert(of[of.len() - 1] != pre.user_maps@[j].frame);
            } else {
                assert(okm[i].frame != pre.user_maps@[j].frame);
            }
        }
        assert forall|i: int, j: int|
            0 <= i < self.kernel_maps@.len() && 0 <= j < self.spaces@.len() implies (
        #[trigger] self.kernel_maps@[i]).frame != (#[trigger] self.spaces@[j]).table_frame() by {
            if i == self.kernel_maps@.len() - 1 {
                assert(of[of.len() - 1] != pre.spaces@[j].table_frame());
            } else {
                assert(okm[i].frame != pre.spaces@[j].table_frame());
            }
        }
        assert forall|k: int, i: int|
            0 <= k < self.alloc.free_list().len() && 0 <= i < self.kernel_maps@.len() implies (
        #[trigger] self.alloc.free_list()[k]) != (#[trigger] self.kernel_maps@[i]).frame by {
            assert(self.alloc.free_list()[k] == of[k]);
            if i == self.kernel_maps@.len() - 1 {
                assert(of[k] != of[of.len() - 1]);
            } else {
                assert(of[k] != okm[i].frame);
            }
        }
        assert forall|k: int, i: int|
            0 <= k < self.alloc.free_list().len() && 0 <= i < self.user_maps@.len() implies (
        #[trigger] self.alloc.free_list()[k]) != (#[trigger] self.user_maps@[i]).frame by {
            assert(self.alloc.free_list()[k] == of[k]);
            assert(of[k] != pre.user_maps@[i].frame);
        }
        assert forall|k: int, i: int|
            0 <= k < self.alloc.free_list().len() && 0 <= i < self.spaces@.len() implies (
        #[trigger] self.alloc.free_list()[k]) != (#[trigger] self.spaces@[i]).table_frame() by {
            assert(self.alloc.free_list()[k] == of[k]);
            assert(of[k] != pre.spaces@[i].table_frame());
        }
    }

    proof fn lemma_wf_after_user_push(self, pre: Memory, frame: u64)
        requires
            pre.wf(),
            pre.free_list().len() > 0,
            frame == pre.free_list().last(),
            self.alloc.free_list() == pre.free_list().drop_last(),
            self.alloc.total() == pre.total(),
            self.alloc.wf(),
            self.user_maps@.len() == pre.user_maps@.len() + 1,
            self.user_maps@ == pre.user_maps@.push(self.user_maps@.last()),
            self.user_maps@.last().frame == frame,
            self.user_maps@.last().ram,
            self.user_maps@.last().domain == pre.active,
            in_user_range(self.user_maps@.last().page),
            page_aligned(self.user_maps@.last().page),
            !pre.user_maps_page(pre.active, self.user_maps@.last().page),
            self.kernel_maps@ == pre.kernel_maps@,
            self.kernel_l4_slice@ == pre.kernel_l4_slice@,
            self.spaces@ == pre.spaces@,
            self.active == pre.active,
            self.store@ == pre.store@,
            self.loaned == pre.loaned,
        ensures
            self.wf(),
    {
        let of = pre.alloc.free_list();
        let oum = pre.user_maps@;
        let m = self.user_maps@.last();
        assert(self.user_maps@.drop_last() =~= oum);
        lemma_count_ram_push(oum, m);
        assert(page_aligned(frame));
        assert forall|i: int, j: int|
            0 <= i < j < self.user_maps@.len() implies !((#[trigger] self.user_maps@[i]).domain
            == (#[trigger] self.user_maps@[j]).domain && self.user_maps@[i].page
            == self.user_maps@[j].page) by {
            if j == self.user_maps@.len() - 1 {
                if oum[i].domain == m.domain && oum[i].page == m.page {
                    assert(pre.user_map()[i].domain == pre.active && pre.user_map()[i].page
                        == m.page);
                    assert(pre.user_maps_page(pre.active, m.page));
                }
            } else {
                assert(!(oum[i].domain == oum[j].domain && oum[i].page == oum[j].page));
            }
        }
        assert forall|i: int, j: int|
            0 <= i < j < self.user_maps@.len() implies (#[trigger] self.user_maps@[i]).frame != (
        #[trigger] self.user_maps@[j]).frame by {
            if j == self.user_maps@.len() - 1 {
                assert(of[of.len() - 1] != oum[i].frame);
            } else {
                assert(oum[i].frame != oum[j].frame);
            }
        }
        assert forall|i: int, j: int|
            0 <= i < self.kernel_maps@.len() && 0 <= j < self.user_maps@.len() implies (
        #[trigger] self.kernel_maps@[i]).frame != (#[trigger] self.user_maps@[j]).frame by {
            if j == self.user_maps@.len() - 1 {
                assert(of[of.len() - 1] != pre.kernel_maps@[i].frame);
            } else {
                assert(pre.kernel_maps@[i].frame != oum[j].frame);
            }
        }
        assert forall|i: int, j: int|
            0 <= i < self.user_maps@.len() && 0 <= j < self.spaces@.len() implies (
        #[trigger] self.user_maps@[i]).frame != (#[trigger] self.spaces@[j]).table_frame() by {
            if i == self.user_maps@.len() - 1 {
                assert(of[of.len() - 1] != pre.spaces@[j].table_frame());
            } else {
                assert(oum[i].frame != pre.spaces@[j].table_frame());
            }
        }
        assert forall|k: int, i: int|
            0 <= k < self.alloc.free_list().len() && 0 <= i < self.user_maps@.len() implies (
        #[trigger] self.alloc.free_list()[k]) != (#[trigger] self.user_maps@[i]).frame by {
            assert(self.alloc.free_list()[k] == of[k]);
            if i == self.user_maps@.len() - 1 {
                assert(of[k] != of[of.len() - 1]);
            } else {
                assert(of[k] != oum[i].frame);
            }
        }
        assert forall|k: int, i: int|
            0 <= k < self.alloc.free_list().len() && 0 <= i < self.kernel_maps@.len() implies (
        #[trigger] self.alloc.free_list()[k]) != (#[trigger] self.kernel_maps@[i]).frame by {
            assert(self.alloc.free_list()[k] == of[k]);
            assert(of[k] != pre.kernel_maps@[i].frame);
        }
        assert forall|k: int, i: int|
            0 <= k < self.alloc.free_list().len() && 0 <= i < self.spaces@.len() implies (
        #[trigger] self.alloc.free_list()[k]) != (#[trigger] self.spaces@[i]).table_frame() by {
            assert(self.alloc.free_list()[k] == of[k]);
            assert(of[k] != pre.spaces@[i].table_frame());
        }
    }

    /// Allocates a frame and maps `page` to it in the shared kernel half
    /// with `flags | PRESENT`, returning the frame. Kernel mappings never
    /// carry USER_ACCESSIBLE. An empty pool is a fatal out-of-memory
    /// condition for the kernel and is excluded here.
    pub fn map_ram_kernel(&mut self, page: u64, flags: u64) -> (frame: u64)
        requires
            old(self).wf(),
            old(self).free_list().len() > 0,
            in_kernel_range(page),
            page_aligned(page),
            !old(self).kernel_maps_page(page),
            flags & FLAG_USER_ACCESSIBLE == 0,
        ensures
            final(self).wf(),
            map_ram_kernel_rel(*old(self), *final(self), page, flags, frame),
    {
        let frame = self.alloc.allocate_frame().unwrap();
        self.kernel_maps.push(
            Mapping { domain: 0, page, frame, flags: flags | FLAG_PRESENT, ram: true },
        );
        proof {
            self.lemma_wf_after_kernel_push(*old(self), frame);
        }
        frame
    }

    /// Allocates a frame and maps `page` to it in the active space's user
    /// half with `flags | USER_ACCESSIBLE | PRESENT`, returning the frame.
    pub fn map_ram_user(&mut self, page: u64, flags: u64) -> (frame: u64)
        requires
            old(self).wf(),
            old(self).free_list().len() > 0,
            in_user_range(page),
            page_aligned(page),
            !old(self).user_maps_page(old(self).active_space(), page),
        ensures
            final(self).wf(),
            map_ram_user_rel(*old(self), *final(self), page, flags, frame),
    {
        let domain = self.active;
        let frame = self.alloc.allocate_frame().unwrap();
        self.user_maps.push(
            Mapping {
                domain,
                page,
                frame,
                flags: flags | FLAG_USER_ACCESSIBLE | FLAG_PRESENT,
                ram: true,
            },
        );
        proof {
            self.lemma_wf_after_user_push(*old(self), frame);
        }
        frame
    }

    /// Low-level unchecked map of a caller-provided frame, used for the SMP
    /// trampoline page. The frame must not be free or already owned; the
    /// mapping is not accounted as allocator RAM.
    pub fn map_frame(&mut self, page: u64, flags: u64, frame: u64)
        requires
            old(self).wf(),
            page_aligned(page),
            page_aligned(frame),
            in_kernel_range(page) || in_user_range(page),
            in_kernel_range(page) ==> !old(self).kernel_maps_page(page),
            in_user_range(page) ==> !old(self).user_maps_page(old(self).active_space(), page),
            !old(self).frame_owned(frame),
            !old(self).free_list().contains(frame),
        ensures
            final(self).wf(),
            map_frame_rel(*old(self), *final(self), page, flags, frame),
    {
        proof {
            assert forall|i: int|
                0 <= i < self.kernel_maps@.len() implies (#[trigger] self.kernel_maps@[i]).frame
                != frame by {
                if self.kernel_maps@[i].frame == frame {
                    assert(self.kernel_map()[i].frame == frame);
                    assert(self.frame_owned(frame));
                }
            }
            assert forall|i: int|
                0 <= i < self.user_maps@.len() implies (#[trigger] self.user_maps@[i]).frame
                != frame by {
                if self.user_maps@[i].frame == frame {
                    assert(self.user_map()[i].frame == frame);
                    assert(self.frame_owned(frame));
                }
            }
            assert forall|i: int|
                0 <= i < self.spaces@.len() implies (#[trigger] self.spaces@[i]).table_frame()
                != frame by {
                if self.spaces@[i].table_frame() == frame {
                    assert(self.spaces_seq()[i].table_frame() == frame);
                    assert(self.frame_owned(frame));
                }
            }
            assert forall|k: int|
                0 <= k < self.alloc.free_list().len() implies (
            #[trigger] self.alloc.free_list()[k]) != frame by {
                if self.alloc.free_list()[k] == frame {
                    assert(self.alloc.free_list().contains(frame));
                }
            }
        }
        proof {
            crate::addr::lemma_ranges_disjoint();
        }
        let domain = self.active;
        if page >= crate::addr::KERNEL_START {
            proof {
                assert(in_kernel_range(page));
            }
            self.kernel_maps.push(Mapping { domain: 0, page, frame, flags, ram: false });
            proof {
                let ghost okm = old(self).kernel_maps@;
                assert(self.kernel_maps@.drop_last() =~= okm);
                lemma_count_ram_push(okm, self.kernel_maps@.last());
                assert forall|i: int, j: int|
                    0 <= i < j < self.kernel_maps@.len() implies (
                #[trigger] self.kernel_maps@[i]).page != (#[trigger] self.kernel_maps@[j]).page by {
                    if j == self.kernel_maps@.len() - 1 {
                        if okm[i].page == page {
                            assert(old(self).kernel_map()[i].page == page);
                            assert(old(self).kernel_maps_page(page));
                        }
                    } else {
                        assert(okm[i].page != okm[j].page);
                    }
                }
                assert forall|i: int, j: int|
                    0 <= i < j < self.kernel_maps@.len() implies (
                #[trigger] self.kernel_maps@[i]).frame != (#[trigger] self.kernel_maps@[j]).frame by {
                    if j == self.kernel_maps@.len() - 1 {
                        assert(okm[i].frame != frame);
                    } else {
                        assert(okm[i].frame != okm[j].frame);
                    }
                }
                assert forall|i: int, j: int|
                    0 <= i < self.kernel_maps@.len() && 0 <= j < self.user_maps@.len() implies (
                #[trigger] self.kernel_maps@[i]).frame != (#[trigger] self.user_maps@[j]).frame by {
                    if i == self.kernel_maps@.len() - 1 {
                        assert(old(self).user_maps@[j].frame != frame);
                    } else {
                        assert(okm[i].frame != old(self).user_maps@[j].frame);
                    }
                }
                assert forall|i: int, j: int|
                    0 <= i < self.kernel_maps@.len() && 0 <= j < self.spaces@.len() implies (
                #[trigger] self.kernel_maps@[i]).frame != (#[trigger] self.spaces@[j]).table_frame() by {
                    if i == self.kernel_maps@.len() - 1 {
                        assert(old(self).spaces@[j].table_frame() != frame);
                    } else {
                        assert(okm[i].frame != old(self).spaces@[j].table_frame());
                    }
                }
                assert forall|k: int, i: int|
                    0 <= k < self.alloc.free_list().len() && 0 <= i < self.kernel_maps@.len()
                    implies (#[trigger] self.alloc.free_list()[k]) != (
                #[trigger] self.kernel_maps@[i]).frame by {
                    if i == self.kernel_maps@.len() - 1 {
                        assert(self.alloc.free_list()[k] != frame);
                    } else {
                        assert(self.alloc.free_list()[k] != okm[i].frame);
                    }
                }
            }
        } else {
            proof {
                assert(in_user_range(page));
            }
            self.user_maps.push(Mapping { domain, page, frame, flags, ram: false });
            proof {
                let ghost oum = old(self).user_maps@;
                assert(self.user_maps@.drop_last() =~= oum);
                lemma_count_ram_push(oum, self.user_maps@.last());
                assert forall|i: int, j: int|
                    0 <= i < j < self.user_maps@.len() implies !((
                #[trigger] self.user_maps@[i]).domain == (#[trigger] self.user_maps@[j]).domain
                    && self.user_maps@[i].page == self.user_maps@[j].page) by {
                    if j == self.user_maps@.len() - 1 {
                        if oum[i].domain == domain && oum[i].page == page {
                            assert(old(self).user_map()[i].domain == domain && old(
                                self,
                            ).user_map()[i].page == page);
                            assert(old(self).user_maps_page(domain, page));
                        }
                    } else {
                        assert(!(oum[i].domain == oum[j].domain && oum[i].page == oum[j].page));
                    }
                }
                assert forall|i: int, j: int|
                    0 <= i < j < self.user_maps@.len() implies (
                #[trigger] self.user_maps@[i]).frame != (#[trigger] self.user_maps@[j]).frame by {
                    if j == self.user_maps@.len() - 1 {
                        assert(oum[i].frame != frame);
                    } else {
                        assert(oum[i].frame != oum[j].frame);
                    }
                }
                assert forall|i: int, j: int|
                    0 <= i < self.kernel_maps@.len() && 0 <= j < self.user_maps@.len() implies (
                #[trigger] self.kernel_maps@[i]).frame != (#[trigger] self.user_maps@[j]).frame by {
                    if j == self.user_maps@.len() - 1 {
                        assert(old(self).kernel_maps@[i].frame != frame);
                    } else {
                        assert(old(self).kernel_maps@[i].frame != oum[j].frame);
                    }
                }
                assert forall|i: int, j: int|
                    0 <= i < self.user_maps@.len() && 0 <= j < self.spaces@.len() implies (
                #[trigger] self.user_maps@[i]).frame != (#[trigger] self.spaces@[j]).table_frame() by {
                    if i == self.user_maps@.len() - 1 {
                        assert(old(self).spaces@[j].table_frame() != frame);
                    } else {
                        assert(oum[i].frame != old(self).spaces@[j].table_frame());
                    }
                }
                assert forall|k: int, i: int|
                    0 <= k < self.alloc.free_list().len() && 0 <= i < self.user_maps@.len()
                    implies (#[trigger] self.alloc.free_list()[k]) != (
                #[trigger] self.user_maps@[i]).frame by {
                    if i == self.user_maps@.len() - 1 {
                        assert(self.alloc.free_list()[k] != frame);
                    } else {
                        assert(self.alloc.free_list()[k] != oum[i].frame);
                    }
                }
            }
        }
    }
}

/// The parts of the manager that `write_u64` leaves untouched: everything
/// but the store.
pub open spec fn write_unchanged_rest(pre: Memory, post: Memory) -> bool {
    &&& post.free_list() == pre.free_list()
    &&& post.total() == pre.total()
    &&& post.kernel_map() == pre.kernel_map()
    &&& post.user_map() == pre.user_map()
    &&& post.kernel_slice() == pre.kernel_slice()
    &&& post.spaces_seq() == pre.spaces_seq()
    &&& post.active_space() == pre.active_space()
    &&& post.loaned_frames() == pre.loaned_frames()
}

/// What `change_flags(page, flags)` does: the one mapping of `page` in the
/// half routed to by the page's range keeps its frame and gets exactly the
/// given flags.
pub open spec fn change_flags_rel(pre: Memory, post: Memory, page: u64, flags: u64) -> bool {
    &&& post.free_list() == pre.free_list()
    &&& post.loaned_frames() == pre.loaned_frames()
    &&& if in_kernel_range(page) {
        exists|k: int|
            0 <= k < pre.kernel_map().len() && (#[trigger] pre.kernel_map()[k]).page == page
                && post.kernel_map() == pre.kernel_map().update(
                k,
                (Mapping {
                    domain: pre.kernel_map()[k].domain,
                    page,
                    frame: pre.kernel_map()[k].frame,
                    flags,
                    ram: pre.kernel_map()[k].ram,
                }),
            ) && unchanged_but_kernel_half(pre, post)
    } else {
        exists|k: int|
            0 <= k < pre.user_map().len() && (#[trigger] pre.user_map()[k]).page == page
                && pre.user_map()[k].domain == pre.active_space() && post.user_map()
                == pre.user_map().update(
                k,
                (Mapping {
                    domain: pre.user_map()[k].domain,
                    page,
                    frame: pre.user_map()[k].frame,
                    flags,
                    ram: pre.user_map()[k].ram,
                }),
            ) && unchanged_but_user_half(pre, post)
    }
}

proof fn lemma_store_lookup_pointwise(
    pre: Memory,
    post: Memory,
    i: int,
    frame: u64,
    value: u64,
    f: u64,
)
    requires
        forall|p: int, q: int|
            0 <= p < q < pre.store_seq().len() ==> (#[trigger] pre.store_seq()[p]).0 != (
            #[trigger] pre.store_seq()[q]).0,
        0 <= i < pre.store_seq().len(),
        pre.store_seq()[i].0 == frame,
        post.store_seq() == pre.store_seq().update(i, (frame, value)),
    ensures
        post.store_lookup(f) == if f == frame {
            Some(value)
        } else {
            pre.store_lookup(f)
        },
{
    if f == frame {
        assert(post.store_seq()[i].0 == f);
        let c = choose|c: int| 0 <= c < post.store_seq().len() && (#[trigger] post.store_seq()[c]).0 == f;
        if c != i {
            assert(pre.store_seq()[c].0 == post.store_seq()[c].0);
            assert(pre.store_seq()[c].0 != pre.store_seq()[i].0);
            assert(false);
        }
    } else {
        if exists|c: int| 0 <= c < post.store_seq().len() && (#[trigger] post.store_seq()[c]).0 == f {
            let c = choose|c: int|
                0 <= c < post.store_seq().len() && (#[trigger] post.store_seq()[c]).0 == f;
            assert(c != i);
            assert(pre.store_seq()[c].0 == f);
            let c2 = choose|c2: int|
                0 <= c2 < pre.store_seq().len() && (#[trigger] pre.store_seq()[c2]).0 == f;
            if c2 != c {
                assert(pre.store_seq()[c2].0 != pre.store_seq()[c].0 || pre.store_seq()[c].0
                    != pre.store_seq()[c2].0);
                assert(false);
            }
            assert(post.store_lookup(f) == Some(post.store_seq()[c].1));
            assert(post.store_seq()[c].1 == pre.store_seq()[c].1);
        } else {
            if exists|c2: int| 0 <= c2 < pre.store_seq().len() && (#[trigger] pre.store_seq()[c2]).0
                == f {
                let c2 = choose|c2: int|
                    0 <= c2 < pre.store_seq().len() && (#[trigger] pre.store_seq()[c2]).0 == f;
                assert(c2 != i);
                assert(post.store_seq()[c2].0 == f);
                assert(false);
            }
        }
    }
}

proof fn lemma_store_lookup_push(pre: Memory, post: Memory, frame: u64, value: u64, f: u64)
    requires
        forall|p: int, q: int|
            0 <= p < q < pre.store_seq().len() ==> (#[trigger] pre.store_seq()[p]).0 != (
            #[trigger] pre.store_seq()[q]).0,
        forall|j: int|
            0 <= j < pre.store_seq().len() ==> (#[trigger] pre.store_seq()[j]).0 != frame,
        post.store_seq() == pre.store_seq().push((frame, value)),
    ensures
        post.store_lookup(f) == if f == frame {
            Some(value)
        } else {
            pre.store_lookup(f)
        },
{
    let n = pre.store_seq().len() as int;
    if f == frame {
        assert(post.store_seq()[n].0 == f);
        let c = choose|c: int| 0 <= c < post.store_seq().len() && (#[trigger] post.store_seq()[c]).0 == f;
        if c != n {
            assert(pre.store_seq()[c].0 == f);
            assert(false);
        }
    } else {
        if exists|c: int| 0 <= c < post.store_seq().len() && (#[trigger] post.store_seq()[c]).0 == f {
            let c = choose|c: int|
                0 <= c < post.store_seq().len() && (#[trigger] post.store_seq()[c]).0 == f;
            assert(c != n);
            assert(pre.store_seq()[c].0 == f);
            let c2 = choose|c2: int|
                0 <= c2 < pre.store_seq().len() && (#[trigger] pre.store_seq()[c2]).0 == f;
            assert(post.store_seq()[c2].0 == f);
            assert(post.store_lookup(f) == Some(post.store_seq()[c].1));
        } else {
            if exists|c2: int| 0 <= c2 < pre.store_seq().len() && (#[trigger] pre.store_seq()[c2]).0
                == f {
                let c2 = choose|c2: int|
                    0 <= c2 < pre.store_seq().len() && (#[trigger] pre.store_seq()[c2]).0 == f;
                assert(post.store_seq()[c2].0 == f);
                assert(false);
            }
        }
    }
}

proof fn lemma_remove_pointwise(ms: Seq<Mapping>, k: int)
    requires
        0 <= k < ms.len(),
    ensures
        ms.remove(k).len() == ms.len() - 1,
        forall|i: int| 0 <= i < k ==> ms.remove(k)[i] == ms[i],
        forall|i: int| k <= i < ms.len() - 1 ==> ms.remove(k)[i] == ms[i + 1],
{
}

impl Memory {
    proof fn lemma_wf_after_kernel_remove(self, pre: Memory, k: int)
        requires
            pre.wf(),
            0 <= k < pre.kernel_maps@.len(),
            self.kernel_maps@ == pre.kernel_maps@.remove(k),
            self.alloc == pre.alloc,
            self.user_maps@ == pre.user_maps@,
            self.kernel_l4_slice@ == pre.kernel_l4_slice@,
            self.spaces@ == pre.spaces@,
            self.active == pre.active,
            self.store@ == pre.store@,
            self.loaned == pre.loaned + if pre.kernel_maps@[k].ram {
                1u64
            } else {
                0u64
            },
        ensures
            self.wf(),
    {
        let okm = pre.kernel_maps@;
        lemma_remove_pointwise(okm, k);
        lemma_count_ram_remove(okm, k);
        assert forall|i: int, j: int|
            0 <= i < j < self.kernel_maps@.len() implies (#[trigger] self.kernel_maps@[i]).page
            != (#[trigger] self.kernel_maps@[j]).page && self.kernel_maps@[i].frame
            != self.kernel_maps@[j].frame by {
            let i0 = if i < k { i } else { i + 1 };
            let j0 = if j < k { j } else { j + 1 };
            assert(self.kernel_maps@[i] == okm[i0]);
            assert(self.kernel_maps@[j] == okm[j0]);
            assert(okm[i0].page != okm[j0].page);
            assert(okm[i0].frame != okm[j0].frame);
        }
        assert forall|i: int|
            0 <= i < self.kernel_maps@.len() implies in_kernel_range(
            (#[trigger] self.kernel_maps@[i]).page,
        ) && page_aligned(self.kernel_maps@[i].page) && page_aligned(
            self.kernel_maps@[i].frame,
        ) by {
            let i0 = if i < k { i } else { i + 1 };
            assert(self.kernel_maps@[i] == okm[i0]);
        }
        assert forall|i: int, j: int|
            0 <= i < self.kernel_maps@.len() && 0 <= j < self.user_maps@.len() implies (
        #[trigger] self.kernel_maps@[i]).frame != (#[trigger] self.user_maps@[j]).frame by {
            let i0 = if i < k { i } else { i + 1 };
            assert(self.kernel_maps@[i] == okm[i0]);
            assert(okm[i0].frame != pre.user_maps@[j].frame);
        }
        assert forall|i: int, j: int|
            0 <= i < self.kernel_maps@.len() && 0 <= j < self.spaces@.len() implies (
        #[trigger] self.kernel_maps@[i]).frame != (#[trigger] self.spaces@[j]).table_frame() by {
            let i0 = if i < k { i } else { i + 1 };
            assert(self.kernel_maps@[i] == okm[i0]);
            assert(okm[i0].frame != pre.spaces@[j].table_frame());
        }
        assert forall|q: int, i: int|
            0 <= q < self.alloc.free_list().len() && 0 <= i < self.kernel_maps@.len() implies (
        #[trigger] self.alloc.free_list()[q]) != (#[trigger] self.kernel_maps@[i]).frame by {
            let i0 = if i < k { i } else { i + 1 };
            assert(self.kernel_maps@[i] == okm[i0]);
            assert(pre.alloc.free_list()[q] != okm[i0].frame);
        }
    }

    proof fn lemma_wf_after_user_remove(self, pre: Memory, k: int)
        requires
            pre.wf(),
            0 <= k < pre.user_maps@.len(),
            self.user_maps@ == pre.user_maps@.remove(k),
            self.alloc == pre.alloc,
            self.kernel_maps@ == pre.kernel_maps@,
            self.kernel_l4_slice@ == pre.kernel_l4_slice@,
            self.spaces@ == pre.spaces@,
            self.active == pre.active,
            self.store@ == pre.store@,
            self.loaned == pre.loaned + if pre.user_maps@[k].ram {
                1u64
            } else {
                0u64
            },
        ensures
            self.wf(),
    {
        let oum = pre.user_maps@;
        lemma_remove_pointwise(oum, k);
        lemma_count_ram_remove(oum, k);
        assert forall|i: int, j: int|
            0 <= i < j < self.user_maps@.len() implies !((#[trigger] self.user_maps@[i]).domain
            == (#[trigger] self.user_maps@[j]).domain && self.user_maps@[i].page
            == self.user_maps@[j].page) && self.user_maps@[i].frame != self.user_maps@[j].frame by {
            let i0 = if i < k { i } else { i + 1 };
            let j0 = if j < k { j } else { j + 1 };
            assert(self.user_maps@[i] == oum[i0]);
            assert(self.user_maps@[j] == oum[j0]);
            assert(!(oum[i0].domain == oum[j0].domain && oum[i0].page == oum[j0].page));
            assert(oum[i0].frame != oum[j0].frame);
        }
        assert forall|i: int|
            0 <= i < self.user_maps@.len() implies in_user_range(
            (#[trigger] self.user_maps@[i]).page,
        ) && page_aligned(self.user_maps@[i].page) && page_aligned(self.user_maps@[i].frame)
            && self.user_maps@[i].domain <= self.spaces@.len() by {
            let i0 = if i < k { i } else { i + 1 };
            assert(self.user_maps@[i] == oum[i0]);
        }
        assert forall|i: int, j: int|
            0 <= i < self.kernel_maps@.len() && 0 <= j < self.user_maps@.len() implies (
        #[trigger] self.kernel_maps@[i]).frame != (#[trigger] self.user_maps@[j]).frame by {
            let j0 = if j < k { j } else { j + 1 };
            assert(self.user_maps@[j] == oum[j0]);
            assert(pre.kernel_maps@[i].frame != oum[j0].frame);
        }
        assert forall|i: int, j: int|
            0 <= i < self.user_maps@.len() && 0 <= j < self.spaces@.len() implies (
        #[trigger] self.user_maps@[i]).frame != (#[trigger] self.spaces@[j]).table_frame() by {
            let i0 = if i < k { i } else { i + 1 };
            assert(self.user_maps@[i] == oum[i0]);
            assert(oum[i0].frame != pre.spaces@[j].table_frame());
        }
        assert forall|q: int, i: int|
            0 <= q < self.alloc.free_list().len() && 0 <= i < self.user_maps@.len() implies (
        #[trigger] self.alloc.free_list()[q]) != (#[trigger] self.user_maps@[i]).frame by {
            let i0 = if i < k { i } else { i + 1 };
            assert(self.user_maps@[i] == oum[i0]);
            assert(pre.alloc.free_list()[q] != oum[i0].frame);
        }
    }

    /// Replaces the flags of the active space's existing mapping of `page`
    /// and flushes it, leaving the frame in place.
    pub fn change_flags(&mut self, page: u64, flags: u64)
        requires
            old(self).wf(),
            old(self).active_maps_page(page),
        ensures
            final(self).wf(),
            change_flags_rel(*old(self), *final(self), page, flags),
    {
        proof {
            crate::addr::lemma_ranges_disjoint();
        }
        if page >= crate::addr::KERNEL_START {
            proof {
                assert(in_kernel_range(page));
            }
            let idx = self.find_kernel_index(page).unwrap();
            let m = self.kernel_maps[idx];
            self.kernel_maps[idx] = Mapping { flags, ..m };
            proof {
                let ghost okm = old(self).kernel_maps@;
                let ghost k = idx as int;
                lemma_count_ram_update(okm, k, self.kernel_maps@[k]);
                assert forall|i: int, j: int|
                    0 <= i < j < self.kernel_maps@.len() implies (
                #[trigger] self.kernel_maps@[i]).page != (#[trigger] self.kernel_maps@[j]).page
                    && self.kernel_maps@[i].frame != self.kernel_maps@[j].frame by {
                    assert(self.kernel_maps@[i].page == okm[i].page && self.kernel_maps@[i].frame
                        == okm[i].frame);
                    assert(self.kernel_maps@[j].page == okm[j].page && self.kernel_maps@[j].frame
                        == okm[j].frame);
                }
                assert forall|i: int, j: int|
                    0 <= i < self.kernel_maps@.len() && 0 <= j < self.user_maps@.len() implies (
                #[trigger] self.kernel_maps@[i]).frame != (#[trigger] self.user_maps@[j]).frame by {
                    assert(self.kernel_maps@[i].frame == okm[i].frame);
                }
                assert forall|i: int, j: int|
                    0 <= i < self.kernel_maps@.len() && 0 <= j < self.spaces@.len() implies (
                #[trigger] self.kernel_maps@[i]).frame != (#[trigger] self.spaces@[j]).table_frame()
                    by {
                    assert(self.kernel_maps@[i].frame == okm[i].frame);
                }
                assert forall|q: int, i: int|
                    0 <= q < self.alloc.free_list().len() && 0 <= i < self.kernel_maps@.len()
                    implies (#[trigger] self.alloc.free_list()[q]) != (
                #[trigger] self.kernel_maps@[i]).frame by {
                    assert(self.kernel_maps@[i].frame == okm[i].frame);
                    assert(old(self).alloc.free_list()[q] != okm[i].frame);
                }
            }
        } else {
            proof {
                assert(in_user_range(page) && !in_kernel_range(page));
            }
            let domain = self.active;
            let idx = self.find_user_index(domain, page).unwrap();
            let m = self.user_maps[idx];
            self.user_maps[idx] = Mapping { flags, ..m };
            proof {
                let ghost oum = old(self).user_maps@;
                let ghost k = idx as int;
                lemma_count_ram_update(oum, k, self.user_maps@[k]);
                assert forall|i: int, j: int|
                    0 <= i < j < self.user_maps@.len() implies !((
                #[trigger] self.user_maps@[i]).domain == (#[trigger] self.user_maps@[j]).domain
                    && self.user_maps@[i].page == self.user_maps@[j].page)
                    && self.user_maps@[i].frame != self.user_maps@[j].frame by {
                    assert(self.user_maps@[i].page == oum[i].page && self.user_maps@[i].frame
                        == oum[i].frame && self.user_maps@[i].domain == oum[i].domain);
                    assert(self.user_maps@[j].page == oum[j].page && self.user_maps@[j].frame
                        == oum[j].frame && self.user_maps@[j].domain == oum[j].domain);
                }
                assert forall|i: int, j: int|
                    0 <= i < self.kernel_maps@.len() && 0 <= j < self.user_maps@.len() implies (
                #[trigger] self.kernel_maps@[i]).frame != (#[trigger] self.user_maps@[j]).frame by {
                    assert(self.user_maps@[j].frame == oum[j].frame);
                }
                assert forall|i: int, j: int|
                    0 <= i < self.user_maps@.len() && 0 <= j < self.spaces@.len() implies (
                #[trigger] self.user_maps@[i]).frame != (#[trigger] self.spaces@[j]).table_frame()
                    by {
                    assert(self.user_maps@[i].frame == oum[i].frame);
                }
                assert forall|q: int, i: int|
                    0 <= q < self.alloc.free_list().len() && 0 <= i < self.user_maps@.len()
                    implies (#[trigger] self.alloc.free_list()[q]) != (
                #[trigger] self.user_maps@[i]).frame by {
                    assert(self.user_maps@[i].frame == oum[i].frame);
                    assert(old(self).alloc.free_list()[q] != oum[i].frame);
                }
            }
        }
    }

    /// Looks the page of `addr` up in the active address space and returns
    /// the physical frame it maps to, if any.
    pub fn translate(&self, addr: u64) -> (r: Option<u64>)
        requires
            self.wf(),
            page_aligned(addr),
        ensures
            r is Some <==> self.active_maps_page(addr),
            r matches Some(f) ==> f == self.active_mapping(addr).frame,
    {
        proof {
            crate::addr::lemma_ranges_disjoint();
        }
        if addr >= crate::addr::KERNEL_START && addr < crate::addr::KERNEL_END {
            proof {
                assert(in_kernel_range(addr));
            }
            match self.find_kernel_index(addr) {
                Some(i) => {
                    proof {
                        let ghost c = choose|j: int|
                            0 <= j < self.kernel_map().len() && (
                            #[trigger] self.kernel_map()[j]).page == addr;
                        if c != i as int {
                            assert(self.kernel_maps@[c].page != self.kernel_maps@[i as int].page);
                            assert(false);
                        }
                    }
                    Some(self.kernel_maps[i].frame)
                },
                None => None,
            }
        } else if addr < crate::addr::USER_END {
            proof {
                assert(in_user_range(addr) && !in_kernel_range(addr));
            }
            match self.find_user_index(self.active, addr) {
                Some(i) => {
                    proof {
                        let ghost c = choose|j: int|
                            0 <= j < self.user_map().len() && (#[trigger] self.user_map()[j]).domain
                                == self.active_space() && self.user_map()[j].page == addr;
                        if c != i as int {
                            assert(!(self.user_maps@[c].domain == self.user_maps@[i as int].domain
                                && self.user_maps@[c].page == self.user_maps@[i as int].page));
                            assert(false);
                        }
                    }
                    Some(self.user_maps[i].frame)
                },
                None => None,
            }
        } else {
            proof {
                assert(!in_kernel_range(addr) && !in_user_range(addr));
                if self.user_maps_page(self.active_space(), addr) {
                    let ghost j = choose|j: int|
                        0 <= j < self.user_map().len() && (#[trigger] self.user_map()[j]).domain
                            == self.active_space() && self.user_map()[j].page == addr;
                    assert(in_user_range(self.user_maps@[j].page));
                    assert(false);
                }
            }
            None
        }
    }

    /// Writes `value` into the model cell of the frame that the active
    /// space maps the page of `addr` to. The store models one word per
    /// frame, which is enough to witness address-space isolation.
    pub fn write_u64(&mut self, addr: u64, value: u64)
        requires
            old(self).wf(),
            page_aligned(addr),
            old(self).active_maps_page(addr),
        ensures
            final(self).wf(),
            forall|f: u64|
                final(self).store_lookup(f) == if f == old(self).active_mapping(addr).frame {
                    Some(value)
                } else {
                    old(self).store_lookup(f)
                },
            write_unchanged_rest(*old(self), *final(self)),
    {
        let frame = self.translate(addr).unwrap();
        let n = self.store.len();
        let mut i: usize = 0;
        while i < n
            invariant
                *self == *old(self),
                old(self).wf(),
                n == self.store@.len(),
                i <= n,
                forall|j: int| 0 <= j < i ==> (#[trigger] self.store@[j]).0 != frame,
                frame == old(self).active_mapping(addr).frame,
            decreases n - i,
        {
            if self.store[i].0 == frame {
                self.store[i] = (frame, value);
                proof {
                    let ghost os = old(self).store@;
                    assert(old(self).store_seq() == os);
                    assert(self.store_seq() == self.store@);
                    assert forall|p: int, q: int|
                        0 <= p < q < os.len() implies (#[trigger] old(self).store_seq()[p]).0 != (
                    #[trigger] old(self).store_seq()[q]).0 by {
                        assert(os[p].0 != os[q].0);
                    }
                    assert forall|p: int, q: int|
                        0 <= p < q < self.store@.len() implies (#[trigger] self.store@[p]).0 != (
                    #[trigger] self.store@[q]).0 by {
                        assert(self.store@[p].0 == os[p].0);
                        assert(self.store@[q].0 == os[q].0);
                    }
                    assert(self.store_seq() == old(self).store_seq().update(
                        i as int,
                        (frame, value),
                    ));
                    assert(old(self).store_seq()[i as int].0 == frame);
                    assert forall|f: u64|
                        self.store_lookup(f) == if f == frame {
                            Some(value)
                        } else {
                            old(self).store_lookup(f)
                        } by {
                        lemma_store_lookup_pointwise(
                            *old(self),
                            *self,
                            i as int,
                            frame,
                            value,
                            f,
                        );
                    }
                }
                return ;
            }
            i += 1;
        }
        self.store.push((frame, value));
        proof {
            let ghost os = old(self).store@;
            assert(old(self).store_seq() == os);
            assert(self.store_seq() == self.store@);
            assert(self.store@.drop_last() =~= os);
            assert forall|p: int, q: int|
                0 <= p < q < os.len() implies (#[trigger] old(self).store_seq()[p]).0 != (
            #[trigger] old(self).store_seq()[q]).0 by {
                assert(os[p].0 != os[q].0);
            }
            assert forall|j: int|
                0 <= j < os.len() implies (#[trigger] old(self).store_seq()[j]).0 != frame by {
                assert(os[j].0 != frame);
            }
            assert(self.store_seq() == old(self).store_seq().push((frame, value)));
            assert forall|p: int, q: int|
                0 <= p < q < self.store@.len() implies (#[trigger] self.store@[p]).0 != (
            #[trigger] self.store@[q]).0 by {
                if q == self.store@.len() - 1 {
                    assert(os[p].0 != frame);
                } else {
                    assert(os[p].0 != os[q].0);
                }
            }
            assert forall|f: u64|
                self.store_lookup(f) == if f == frame {
                    Some(value)
                } else {
                    old(self).store_lookup(f)
                } by {
                lemma_store_lookup_push(*old(self), *self, frame, value, f);
            }
        }
    }

    /// Reads the model cell of the frame that the active space maps the
    /// page of `addr` to; the cell must have been written.
    pub fn read_u64(&self, addr: u64) -> (r: u64)
        requires
            self.wf(),
            page_aligned(addr),
            self.active_maps_page(addr),
            self.store_lookup(self.active_mapping(addr).frame) is Some,
        ensures
            Some(r) == self.store_lookup(self.active_mapping(addr).frame),
    {
        let frame = self.translate(addr).unwrap();
        let n = self.store.len();
        let mut i: usize = 0;
        while i < n
            invariant
                self.wf(),
                n == self.store@.len(),
                i <= n,
                forall|j: int| 0 <= j < i ==> (#[trigger] self.store@[j]).0 != frame,
                frame == self.active_mapping(addr).frame,
                self.store_lookup(self.active_mapping(addr).frame) is Some,
            decreases n - i,
        {
            if self.store[i].0 == frame {
                proof {
                    assert(self.store_seq() == self.store@);
                    assert(self.store_seq()[i as int].0 == frame);
                    let ghost c = choose|c: int|
                        0 <= c < self.store_seq().len() && (#[trigger] self.store_seq()[c]).0
                            == frame;
                    if c != i as int {
                        assert(self.store@[c].0 != self.store@[i as int].0);
                        assert(false);
                    }
                }
                return self.store[i].1;
            }
            i += 1;
        }
        proof {
            assert(self.store_seq() == self.store@);
            let ghost c = choose|c: int|
                0 <= c < self.store_seq().len() && (#[trigger] self.store_seq()[c]).0 == frame;
            assert(self.store@[c].0 != frame);
            assert(false);
        }
        0
    }

    /// Removes the active space's mapping of `page` and returns its frame
    /// without freeing it.
    pub fn unmap(&mut self, page: u64) -> (frame: u64)
        requires
            old(self).wf(),
            old(self).active_maps_page(page),
        ensures
            final(self).wf(),
            unmap_rel(*old(self), *final(self), page, frame),
            frame == old(self).active_mapping(page).frame,
            !final(self).free_list().contains(frame),
            page_aligned(frame),
            old(self).active_mapping(page).ram ==> final(self).free_list().len() < final(self).total(),
    {
        proof {
            crate::addr::lemma_ranges_disjoint();
        }
        if page >= crate::addr::KERNEL_START {
            proof {
                assert(in_kernel_range(page));
            }
            let idx = self.find_kernel_index(page).unwrap();
            let m = self.kernel_maps[idx];
            self.kernel_maps.remove(idx);
            if m.ram {
                proof {
                    lemma_count_ram_remove(old(self).kernel_maps@, idx as int);
                }
                self.loaned = self.loaned + 1;
            }
            proof {
                let ghost okm = old(self).kernel_maps@;
                let ghost k = idx as int;
                self.lemma_wf_after_kernel_remove(*old(self), k);
                let ghost c = choose|j: int|
                    0 <= j < old(self).kernel_map().len() && (
                    #[trigger] old(self).kernel_map()[j]).page == page;
                if c != k {
                    assert(okm[c].page != okm[k].page);
                    assert(false);
                }
                assert(old(self).kernel_mapping(page) == okm[k]);
                lemma_count_ram_remove(okm, k);
                if self.alloc.free_list().contains(m.frame) {
                    let ghost q = choose|q: int|
                        0 <= q < self.alloc.free_list().len() && self.alloc.free_list()[q]
                            == m.frame;
                    assert(old(self).alloc.free_list()[q] != okm[k].frame);
                    assert(false);
                }
            }
            m.frame
        } else {
            proof {
                assert(in_user_range(page) && !in_kernel_range(page));
            }
            let domain = self.active;
            let idx = self.find_user_index(domain, page).unwrap();
            let m = self.user_maps[idx];
            self.user_maps.remove(idx);
            if m.ram {
                proof {
                    lemma_count_ram_remove(old(self).user_maps@, idx as int);
                }
                self.loaned = self.loaned + 1;
            }
            proof {
                let ghost oum = old(self).user_maps@;
                let ghost k = idx as int;
                self.lemma_wf_after_user_remove(*old(self), k);
                let ghost c = choose|j: int|
                    0 <= j < old(self).user_map().len() && (#[trigger] old(self).user_map()[j]).domain
                        == old(self).active_space() && old(self).user_map()[j].page == page;
                if c != k {
                    assert(!(oum[c].domain == oum[k].domain && oum[c].page == oum[k].page));
                    assert(false);
                }
                assert(old(self).user_mapping(old(self).active_space(), page) == oum[k]);
                lemma_count_ram_remove(oum, k);
                if self.alloc.free_list().contains(m.frame) {
                    let ghost q = choose|q: int|
                        0 <= q < self.alloc.free_list().len() && self.alloc.free_list()[q]
                            == m.frame;
                    assert(old(self).alloc.free_list()[q] != oum[k].frame);
                    assert(false);
                }
            }
            m.frame
        }
    }

    /// Removes the active space's mapping of `page` and returns its frame to
    /// the allocator. The mapping must own an allocator RAM frame, as every
    /// mapping made through `map_ram_kernel` or `map_ram_user` does.
    pub fn unmap_ram(&mut self, page: u64)
        requires
            old(self).wf(),
            old(self).active_maps_page(page),
            old(self).active_mapping(page).ram,
        ensures
            final(self).wf(),
            unmap_ram_rel(*old(self), *final(self), page),
    {
        proof {
            crate::addr::lemma_ranges_disjoint();
        }
        let ghost pre = *self;
        let frame = self.unmap(page);
        let ghost mid = *self;
        self.alloc.deallocate_frame(frame);
        self.loaned = self.loaned - 1;
        proof {
            if in_kernel_range(page) {
                let ghost k = choose|k: int|
                    0 <= k < pre.kernel_map().len() && (#[trigger] pre.kernel_map()[k]).page == page
                        && frame == pre.kernel_map()[k].frame && mid.kernel_map()
                        == pre.kernel_map().remove(k) && unchanged_but_kernel_half(pre, mid);
                lemma_remove_pointwise(pre.kernel_maps@, k);
                assert forall|q: int, i: int|
                    0 <= q < self.alloc.free_list().len() && 0 <= i < self.kernel_maps@.len()
                    implies (#[trigger] self.alloc.free_list()[q]) != (
                #[trigger] self.kernel_maps@[i]).frame by {
                    let i0 = if i < k { i } else { i + 1 };
                    assert(self.kernel_maps@[i] == pre.kernel_maps@[i0]);
                    if q < mid.alloc.free_list().len() {
                        assert(mid.alloc.free_list()[q] != mid.kernel_maps@[i].frame);
                    } else {
                        assert(self.alloc.free_list()[q] == frame);
                        assert(pre.kernel_maps@[k].frame != pre.kernel_maps@[i0].frame);
                    }
                }
                assert forall|q: int, i: int|
                    0 <= q < self.alloc.free_list().len() && 0 <= i < self.user_maps@.len()
                    implies (#[trigger] self.alloc.free_list()[q]) != (
                #[trigger] self.user_maps@[i]).frame by {
                    if q < mid.alloc.free_list().len() {
                        assert(mid.alloc.free_list()[q] != mid.user_maps@[i].frame);
                    } else {
                        assert(self.alloc.free_list()[q] == frame);
                        assert(pre.kernel_maps@[k].frame != pre.user_maps@[i].frame);
                    }
                }
                assert forall|q: int, i: int|
                    0 <= q < self.alloc.free_list().len() && 0 <= i < self.spaces@.len() implies (
                #[trigger] self.alloc.free_list()[q]) != (#[trigger] self.spaces@[i]).table_frame()
                    by {
                    if q < mid.alloc.free_list().len() {
                        assert(mid.alloc.free_list()[q] != mid.spaces@[i].table_frame());
                    } else {
                        assert(self.alloc.free_list()[q] == frame);
                        assert(pre.kernel_maps@[k].frame != pre.spaces@[i].table_frame());
                    }
                }
            } else {
                let ghost k = choose|k: int|
                    0 <= k < pre.user_map().len() && (#[trigger] pre.user_map()[k]).page == page
                        && pre.user_map()[k].domain == pre.active_space() && frame
                        == pre.user_map()[k].frame && mid.user_map() == pre.user_map().remove(k)
                        && unchanged_but_user_half(pre, mid);
                lemma_remove_pointwise(pre.user_maps@, k);
                assert forall|q: int, i: int|
                    0 <= q < self.alloc.free_list().len() && 0 <= i < self.user_maps@.len()
                    implies (#[trigger] self.alloc.free_list()[q]) != (
                #[trigger] self.user_maps@[i]).frame by {
                    let i0 = if i < k { i } else { i + 1 };
                    assert(self.user_maps@[i] == pre.user_maps@[i0]);
                    if q < mid.alloc.free_list().len() {
                        assert(mid.alloc.free_list()[q] != mid.user_maps@[i].frame);
                    } else {
                        assert(self.alloc.free_list()[q] == frame);
                        assert(pre.user_maps@[k].frame != pre.user_maps@[i0].frame);
                    }
                }
                assert forall|q: int, i: int|
                    0 <= q < self.alloc.free_list().len() && 0 <= i < self.kernel_maps@.len()
                    implies (#[trigger] self.alloc.free_list()[q]) != (
                #[trigger] self.kernel_maps@[i]).frame by {
                    if q < mid.alloc.free_list().len() {
                        assert(mid.alloc.free_list()[q] != mid.kernel_maps@[i].frame);
                    } else {
                        assert(self.alloc.free_list()[q] == frame);
                        assert(pre.kernel_maps@[i].frame != pre.user_maps@[k].frame);
                    }
                }
                assert forall|q: int, i: int|
                    0 <= q < self.alloc.free_list().len() && 0 <= i < self.spaces@.len() implies (
                #[trigger] self.alloc.free_list()[q]) != (#[trigger] self.spaces@[i]).table_frame()
                    by {
                    if q < mid.alloc.free_list().len() {
                        assert(mid.alloc.free_list()[q] != mid.spaces@[i].table_frame());
                    } else {
                        assert(self.alloc.free_list()[q] == frame);
                        assert(pre.user_maps@[k].frame != pre.spaces@[i].table_frame());
                    }
                }
            }
        }
    }
}

/// The parts of the manager that no mapping operation on the kernel half
/// touches: everything but the kernel half and the free list.
pub open spec fn unchanged_but_kernel_half(pre: Memory, post: Memory) -> bool {
    &&& post.user_map() == pre.user_map()
    &&& post.kernel_slice() == pre.kernel_slice()
    &&& post.spaces_seq() == pre.spaces_seq()
    &&& post.active_space() == pre.active_space()
    &&& post.store_seq() == pre.store_seq()
    &&& post.total() == pre.total()
}

/// The parts of the manager that no mapping operation on a user half
/// touches: everything but the user halves and the free list.
pub open spec fn unchanged_but_user_half(pre: Memory, post: Memory) -> bool {
    &&& post.kernel_map() == pre.kernel_map()
    &&& post.kernel_slice() == pre.kernel_slice()
    &&& post.spaces_seq() == pre.spaces_seq()
    &&& post.active_space() == pre.active_space()
    &&& post.store_seq() == pre.store_seq()
    &&& post.total() == pre.total()
}

/// What `map_ram_kernel(page, flags)` does: the head frame leaves the free
/// list and the kernel half gains exactly the one mapping
/// `page -> frame` with `flags | PRESENT`, drawn from RAM.
pub open spec fn map_ram_kernel_rel(
    pre: Memory,
    post: Memory,
    page: u64,
    flags: u64,
    frame: u64,
) -> bool {
    &&& pre.free_list().len() > 0
    &&& frame == pre.free_list().last()
    &&& post.free_list() == pre.free_list().drop_last()
    &&& post.kernel_map() == pre.kernel_map().push(
        Mapping { domain: 0, page, frame, flags: flags | FLAG_PRESENT, ram: true },
    )
    &&& post.loaned_frames() == pre.loaned_frames()
    &&& unchanged_but_kernel_half(pre, post)
}

/// What `map_ram_user(page, flags)` does: the head frame leaves the free
/// list and the active space's user half gains exactly the one mapping
/// `page -> frame` with `flags | USER_ACCESSIBLE | PRESENT`, drawn from RAM.
pub open spec fn map_ram_user_rel(
    pre: Memory,
    post: Memory,
    page: u64,
    flags: u64,
    frame: u64,
) -> bool {
    &&& pre.free_list().len() > 0
    &&& frame == pre.free_list().last()
    &&& post.free_list() == pre.free_list().drop_last()
    &&& post.user_map() == pre.user_map().push(
        Mapping {
            domain: pre.active_space(),
            page,
            frame,
            flags: flags | FLAG_USER_ACCESSIBLE | FLAG_PRESENT,
            ram: true,
        },
    )
    &&& post.loaned_frames() == pre.loaned_frames()
    &&& unchanged_but_user_half(pre, post)
}

/// What `map_frame(page, flags, frame)` does: the free list is untouched and
/// the half that `page` falls into gains exactly the one mapping, not
/// accounted as allocator RAM.
pub open spec fn map_frame_rel(pre: Memory, post: Memory, page: u64, flags: u64, frame: u64) -> bool {
    &&& post.free_list() == pre.free_list()
    &&& post.loaned_frames() == pre.loaned_frames()
    &&& if in_kernel_range(page) {
        &&& post.kernel_map() == pre.kernel_map().push(
            Mapping { domain: 0, page, frame, flags, ram: false },
        )
        &&& unchanged_but_kernel_half(pre, post)
    } else {
        &&& post.user_map() == pre.user_map().push(
            Mapping { domain: pre.active_space(), page, frame, flags, ram: false },
        )
        &&& unchanged_but_user_half(pre, post)
    }
}

/// What `unmap(page)` does: the one mapping of `page` in the half routed to
/// by the page's range leaves, returning `frame`; the free list is
/// untouched.
pub open spec fn unmap_rel(pre: Memory, post: Memory, page: u64, frame: u64) -> bool {
    &&& post.free_list() == pre.free_list()
    &&& if in_kernel_range(page) {
        exists|k: int|
            0 <= k < pre.kernel_map().len() && (#[trigger] pre.kernel_map()[k]).page == page
                && frame == pre.kernel_map()[k].frame && post.kernel_map() == pre.kernel_map().remove(
                k,
            ) && post.loaned_frames() == pre.loaned_frames() + if pre.kernel_map()[k].ram {
                1u64
            } else {
                0u64
            } && unchanged_but_kernel_half(pre, post)
    } else {
        exists|k: int|
            0 <= k < pre.user_map().len() && (#[trigger] pre.user_map()[k]).page == page
                && pre.user_map()[k].domain == pre.active_space() && frame == pre.user_map()[k].frame
                && post.user_map() == pre.user_map().remove(k) && post.loaned_frames()
                == pre.loaned_frames() + if pre.user_map()[k].ram {
                1u64
            } else {
                0u64
            } && unchanged_but_user_half(pre, post)
    }
}

/// What `unmap_ram(page)` does: the one mapping of `page` leaves and its
/// frame returns to the head of the free list.
pub open spec fn unmap_ram_rel(pre: Memory, post: Memory, page: u64) -> bool {
    if in_kernel_range(page) {
        exists|k: int|
            0 <= k < pre.kernel_map().len() && (#[trigger] pre.kernel_map()[k]).page == page
                && post.kernel_map() == pre.kernel_map().remove(k) && post.free_list()
                == pre.free_list().push(pre.kernel_map()[k].frame) && post.loaned_frames()
                == pre.loaned_frames() && unchanged_but_kernel_half(pre, post)
    } else {
        exists|k: int|
            0 <= k < pre.user_map().len() && (#[trigger] pre.user_map()[k]).page == page
                && pre.user_map()[k].domain == pre.active_space() && post.user_map()
                == pre.user_map().remove(k) && post.free_list() == pre.free_list().push(
                pre.user_map()[k].frame,
            ) && post.loaned_frames() == pre.loaned_frames() && unchanged_but_user_half(pre, post)
    }
}

/// Page `k` of the consecutive span starting at `start_page`.
pub open spec fn span_page(start_page: u64, k: int) -> u64 {
    (start_page + 4096 * k) as u64
}

/// Whether `p` is one of the `count` consecutive pages from `start_page`.
pub open spec fn in_span(start_page: u64, count: u64, p: u64) -> bool {
    exists|k: int| 0 <= k < count && p == #[trigger] span_page(start_page, k)
}

/// The mappings that mapping `count` consecutive pages from `start_page`
/// adds: page `k` gets the `k`-th frame popped from the free list.
pub open spec fn range_mappings(
    domain: usize,
    start_page: u64,
    count: u64,
    flags: u64,
    free: Seq<u64>,
) -> Seq<Mapping> {
    Seq::new(
        count as nat,
        |k: int|
            Mapping {
                domain,
                page: span_page(start_page, k),
                frame: free[free.len() - 1 - k],
                flags,
                ram: true,
            },
    )
}

impl Memory {
    /// Maps `count` consecutive user pages starting at `start_page`, each
    /// to a freshly allocated frame, with
    /// `flags | USER_ACCESSIBLE | PRESENT`.
    pub fn map_ram_user_range(&mut self, start_page: u64, count: u64, flags: u64)
        requires
            old(self).wf(),
            page_aligned(start_page),
            in_user_range(start_page),
            count > 0 ==> in_user_range((start_page + 4096 * (count - 1)) as u64),
            start_page + 4096 * count <= u64::MAX,
            old(self).free_list().len() >= count,
            forall|k: int|
                0 <= k < count ==> !old(self).user_maps_page(
                    old(self).active_space(),
                    #[trigger] span_page(start_page, k),
                ),
        ensures
            final(self).wf(),
            final(self).free_list() == old(self).free_list().take(
                old(self).free_list().len() - count,
            ),
            final(self).user_map() == old(self).user_map() + range_mappings(
                old(self).active_space(),
                start_page,
                count,
                (flags | FLAG_USER_ACCESSIBLE | FLAG_PRESENT) as u64,
                old(self).free_list(),
            ),
            unchanged_but_user_half(*old(self), *final(self)),
            final(self).loaned_frames() == old(self).loaned_frames(),
    {
        proof {
            crate::addr::lemma_ranges_disjoint();
        }
        let ghost pre = *self;
        let mut i: u64 = 0;
        while i < count
            invariant
                self.wf(),
                pre.wf(),
                i <= count,
                page_aligned(start_page),
                in_user_range(start_page),
                count > 0 ==> in_user_range((start_page + 4096 * (count - 1)) as u64),
                start_page + 4096 * count <= u64::MAX,
                pre.free_list().len() >= count,
                forall|k: int|
                    0 <= k < count ==> !pre.user_maps_page(
                        pre.active_space(),
                        #[trigger] span_page(start_page, k),
                    ),
                self.free_list() == pre.free_list().take(pre.free_list().len() - i),
                self.user_map() == pre.user_map() + range_mappings(
                    pre.active_space(),
                    start_page,
                    i,
                    (flags | FLAG_USER_ACCESSIBLE | FLAG_PRESENT) as u64,
                    pre.free_list(),
                ),
                unchanged_but_user_half(pre, *self),
                self.loaned_frames() == pre.loaned_frames(),
            decreases count - i,
        {
            let page = start_page + 4096 * i;
            proof {
                assert(in_user_range(page)) by {
                    assert(4096 * (i as int) <= 4096 * ((count - 1) as int));
                }
                assert(page % 4096 == 0) by (nonlinear_arith)
                    requires
                        page == start_page + 4096 * i,
                        start_page % 4096 == 0,
                ;
                assert(page == span_page(start_page, i as int));
                if self.user_maps_page(self.active_space(), page) {
                    let ghost j = choose|j: int|
                        0 <= j < self.user_map().len() && (#[trigger] self.user_map()[j]).domain
                            == self.active_space() && self.user_map()[j].page == page;
                    if j < pre.user_map().len() {
                        assert(pre.user_maps_page(pre.active_space(), page));
                        assert(false);
                    } else {
                        let ghost k = j - pre.user_map().len();
                        assert(self.user_map()[j].page == span_page(start_page, k));
                        assert(4096 * k < 4096 * (i as int));
                        assert(false);
                    }
                }
            }
            let frame = self.map_ram_user(page, flags);
            proof {
                let ghost fl = pre.free_list();
                assert(fl.take(fl.len() - i).drop_last() =~= fl.take(fl.len() - (i + 1)));
                assert(fl.take(fl.len() - i).last() == fl[fl.len() - 1 - i]);
                assert(self.user_map() =~= pre.user_map() + range_mappings(
                    pre.active_space(),
                    start_page,
                    (i + 1) as u64,
                    (flags | FLAG_USER_ACCESSIBLE | FLAG_PRESENT) as u64,
                    fl,
                ));
            }
            i += 1;
        }
    }
}

impl Memory {
    /// Maps `count` consecutive kernel pages starting at `start_page`, each
    /// to a freshly allocated frame, with `flags | PRESENT`.
    pub fn map_ram_kernel_range(&mut self, start_page: u64, count: u64, flags: u64)
        requires
            old(self).wf(),
            page_aligned(start_page),
            in_kernel_range(start_page),
            count > 0 ==> in_kernel_range((start_page + 4096 * (count - 1)) as u64),
            start_page + 4096 * count <= u64::MAX,
            old(self).free_list().len() >= count,
            flags & FLAG_USER_ACCESSIBLE == 0,
            forall|k: int|
                0 <= k < count ==> !old(self).kernel_maps_page(#[trigger] span_page(start_page, k)),
        ensures
            final(self).wf(),
            final(self).free_list() == old(self).free_list().take(
                old(self).free_list().len() - count,
            ),
            final(self).kernel_map() == old(self).kernel_map() + range_mappings(
                0,
                start_page,
                count,
                (flags | FLAG_PRESENT) as u64,
                old(self).free_list(),
            ),
            unchanged_but_kernel_half(*old(self), *final(self)),
            final(self).loaned_frames() == old(self).loaned_frames(),
    {
        proof {
            crate::addr::lemma_ranges_disjoint();
        }
        let ghost pre = *self;
        let mut i: u64 = 0;
        while i < count
            invariant
                self.wf(),
                pre.wf(),
                i <= count,
                page_aligned(start_page),
                in_kernel_range(start_page),
                count > 0 ==> in_kernel_range((start_page + 4096 * (count - 1)) as u64),
                start_page + 4096 * count <= u64::MAX,
                pre.free_list().len() >= count,
                flags & FLAG_USER_ACCESSIBLE == 0,
                forall|k: int|
                    0 <= k < count ==> !pre.kernel_maps_page(#[trigger] span_page(start_page, k)),
                self.free_list() == pre.free_list().take(pre.free_list().len() - i),
                self.kernel_map() == pre.kernel_map() + range_mappings(
                    0,
                    start_page,
                    i,
                    (flags | FLAG_PRESENT) as u64,
                    pre.free_list(),
                ),
                unchanged_but_kernel_half(pre, *self),
                self.loaned_frames() == pre.loaned_frames(),
            decreases count - i,
        {
            let page = start_page + 4096 * i;
            proof {
                assert(in_kernel_range(page)) by {
                    assert(4096 * (i as int) <= 4096 * ((count - 1) as int));
                }
                assert(page % 4096 == 0) by (nonlinear_arith)
                    requires
                        page == start_page + 4096 * i,
                        start_page % 4096 == 0,
                ;
                assert(page == span_page(start_page, i as int));
                if self.kernel_maps_page(page) {
                    let ghost j = choose|j: int|
                        0 <= j < self.kernel_map().len() && (#[trigger] self.kernel_map()[j]).page
                            == page;
                    if j < pre.kernel_map().len() {
                        assert(pre.kernel_maps_page(page));
                        assert(false);
                    } else {
                        let ghost k = j - pre.kernel_map().len();
                        assert(self.kernel_map()[j].page == span_page(start_page, k));
                        assert(4096 * k < 4096 * (i as int));
                        assert(false);
                    }
                }
            }
            let frame = self.map_ram_kernel(page, flags);
            proof {
                let ghost fl = pre.free_list();
                assert(fl.take(fl.len() - i).drop_last() =~= fl.take(fl.len() - (i + 1)));
                assert(fl.take(fl.len() - i).last() == fl[fl.len() - 1 - i]);
                assert(self.kernel_map() =~= pre.kernel_map() + range_mappings(
                    0,
                    start_page,
                    (i + 1) as u64,
                    (flags | FLAG_PRESENT) as u64,
                    fl,
                ));
            }
            i += 1;
        }
    }
}

/// What `change_flags` on a user page does, pointwise: the one mapping of
/// `page` in the active domain keeps its frame and gets the new flags, and
/// every other mapping stays as it was.
pub proof fn lemma_change_flags_user_pointwise(pre: Memory, post: Memory, page: u64, flags: u64)
    requires
        pre.wf(),
        !in_kernel_range(page),
        pre.user_maps_page(pre.active_space(), page),
        change_flags_rel(pre, post, page, flags),
    ensures
        forall|d: usize, q: u64| post.user_maps_page(d, q) == pre.user_maps_page(d, q),
        post.user_map().len() == pre.user_map().len(),
        forall|j: int|
            0 <= j < pre.user_map().len() && !((#[trigger] pre.user_map()[j]).domain
                == pre.active_space() && pre.user_map()[j].page == page) ==> post.user_map()[j]
                == pre.user_map()[j],
        post.user_mapping(pre.active_space(), page) == (Mapping {
            domain: pre.user_mapping(pre.active_space(), page).domain,
            page,
            frame: pre.user_mapping(pre.active_space(), page).frame,
            flags,
            ram: pre.user_mapping(pre.active_space(), page).ram,
        }),
{
    let k = choose|k: int|
        0 <= k < pre.user_map().len() && (#[trigger] pre.user_map()[k]).page == page
            && pre.user_map()[k].domain == pre.active_space() && post.user_map()
            == pre.user_map().update(
            k,
            (Mapping {
                domain: pre.user_map()[k].domain,
                page,
                frame: pre.user_map()[k].frame,
                flags,
                ram: pre.user_map()[k].ram,
            }),
        ) && unchanged_but_user_half(pre, post);
    let c = choose|c: int|
        0 <= c < pre.user_map().len() && (#[trigger] pre.user_map()[c]).domain
            == pre.active_space() && pre.user_map()[c].page == page;
    if c != k {
        assert(!(pre.user_map()[c].domain == pre.user_map()[k].domain && pre.user_map()[c].page
            == pre.user_map()[k].page));
        assert(false);
    }
    assert(pre.user_mapping(pre.active_space(), page) == pre.user_map()[k]);
    let c2 = choose|c2: int|
        0 <= c2 < post.user_map().len() && (#[trigger] post.user_map()[c2]).domain
            == pre.active_space() && post.user_map()[c2].page == page;
    assert(post.user_map()[k].domain == pre.active_space() && post.user_map()[k].page == page);
    if c2 != k {
        assert(post.user_map()[c2] == pre.user_map()[c2]);
        assert(!(pre.user_map()[c2].domain == pre.user_map()[k].domain && pre.user_map()[c2].page
            == pre.user_map()[k].page));
        assert(false);
    }
    assert(post.user_mapping(pre.active_space(), page) == post.user_map()[k]);
    assert forall|d: usize, q: u64| post.user_maps_page(d, q) == pre.user_maps_page(d, q) by {
        if post.user_maps_page(d, q) {
            let j = choose|j: int|
                0 <= j < post.user_map().len() && (#[trigger] post.user_map()[j]).domain == d
                    && post.user_map()[j].page == q;
            assert(pre.user_map()[j].domain == d && pre.user_map()[j].page == q);
        }
        if pre.user_maps_page(d, q) {
            let j = choose|j: int|
                0 <= j < pre.user_map().len() && (#[trigger] pre.user_map()[j]).domain == d
                    && pre.user_map()[j].page == q;
            assert(post.user_map()[j].domain == d && post.user_map()[j].page == q);
        }
    }
}

/// What `change_flags` on a kernel page does, pointwise: the one mapping
/// of `page` in the kernel half keeps its frame and gets the new flags,
/// and every other mapping stays as it was.
pub proof fn lemma_change_flags_kernel_pointwise(pre: Memory, post: Memory, page: u64, flags: u64)
    requires
        pre.wf(),
        in_kernel_range(page),
        pre.kernel_maps_page(page),
        change_flags_rel(pre, post, page, flags),
    ensures
        forall|q: u64| post.kernel_maps_page(q) == pre.kernel_maps_page(q),
        post.kernel_map().len() == pre.kernel_map().len(),
        forall|j: int|
            0 <= j < pre.kernel_map().len() && (#[trigger] pre.kernel_map()[j]).page != page
                ==> post.kernel_map()[j] == pre.kernel_map()[j],
        post.kernel_mapping(page) == (Mapping {
            domain: pre.kernel_mapping(page).domain,
            page,
            frame: pre.kernel_mapping(page).frame,
            flags,
            ram: pre.kernel_mapping(page).ram,
        }),
{
    let k = choose|k: int|
        0 <= k < pre.kernel_map().len() && (#[trigger] pre.kernel_map()[k]).page == page
            && post.kernel_map() == pre.kernel_map().update(
            k,
            (Mapping {
                domain: pre.kernel_map()[k].domain,
                page,
                frame: pre.kernel_map()[k].frame,
                flags,
                ram: pre.kernel_map()[k].ram,
            }),
        ) && unchanged_but_kernel_half(pre, post);
    let c = choose|c: int|
        0 <= c < pre.kernel_map().len() && (#[trigger] pre.kernel_map()[c]).page == page;
    if c != k {
        assert(pre.kernel_map()[c].page != pre.kernel_map()[k].page);
        assert(false);
    }
    assert(pre.kernel_mapping(page) == pre.kernel_map()[k]);
    let c2 = choose|c2: int|
        0 <= c2 < post.kernel_map().len() && (#[trigger] post.kernel_map()[c2]).page == page;
    assert(post.kernel_map()[k].page == page);
    if c2 != k {
        assert(post.kernel_map()[c2] == pre.kernel_map()[c2]);
        assert(pre.kernel_map()[c2].page != pre.kernel_map()[k].page);
        assert(false);
    }
    assert(post.kernel_mapping(page) == post.kernel_map()[k]);
    assert forall|q: u64| post.kernel_maps_page(q) == pre.kernel_maps_page(q) by {
        if post.kernel_maps_page(q) {
            let j = choose|j: int|
                0 <= j < post.kernel_map().len() && (#[trigger] post.kernel_map()[j]).page == q;
            assert(pre.kernel_map()[j].page == q);
        }
        if pre.kernel_maps_page(q) {
            let j = choose|j: int|
                0 <= j < pre.kernel_map().len() && (#[trigger] pre.kernel_map()[j]).page == q;
            assert(post.kernel_map()[j].page == q);
        }
    }
}

/// The page-table flags that select the write-combining cache type after
/// the page-attribute table has been reprogrammed: the write-through plus
/// cache-disabled combination, on a present, writable, non-executable
/// page.
pub const FLAGS_FRAMEBUFFER_WC: u64 = FLAG_PRESENT | FLAG_WRITABLE | FLAG_NO_EXECUTE
    | FLAG_WRITE_THROUGH | FLAG_NO_CACHE;

impl Memory {
    /// Flips every page of the framebuffer to the write-combining flag
    /// combination, page by page, leaving each frame in place. The
    /// framebuffer occupies already-mapped pages of the kernel's dynamic
    /// window.
    pub fn set_frame_buffer_cache_to_write_combining(&mut self, fb_base: u64, fb_len: u64)
        requires
            old(self).wf(),
            1 <= fb_len,
            in_kernel_range(fb_base),
            fb_base + fb_len - 1 < crate::addr::KERNEL_END,
            forall|k: int|
                0 <= k < crate::loader::cover_count(fb_base, fb_len) ==> old(self).kernel_maps_page(
                    #[trigger] span_page(crate::loader::cover_start(fb_base), k),
                ),
        ensures
            final(self).wf(),
            final(self).kernel_map().len() == old(self).kernel_map().len(),
            final(self).free_list() == old(self).free_list(),
            final(self).user_map() == old(self).user_map(),
            final(self).active_space() == old(self).active_space(),
            final(self).spaces_seq() == old(self).spaces_seq(),
            final(self).store_seq() == old(self).store_seq(),
            final(self).loaned_frames() == old(self).loaned_frames(),
            forall|q: u64| final(self).kernel_maps_page(q) == old(self).kernel_maps_page(q),
            forall|k: int|
                0 <= k < crate::loader::cover_count(fb_base, fb_len) ==> final(self).kernel_maps_page(#[trigger] span_page(crate::loader::cover_start(fb_base), k))
                    && final(self).kernel_mapping(
                    span_page(crate::loader::cover_start(fb_base), k),
                ) == (Mapping {
                    domain: old(self).kernel_mapping(
                        span_page(crate::loader::cover_start(fb_base), k),
                    ).domain,
                    page: span_page(crate::loader::cover_start(fb_base), k),
                    frame: old(self).kernel_mapping(
                        span_page(crate::loader::cover_start(fb_base), k),
                    ).frame,
                    flags: FLAGS_FRAMEBUFFER_WC,
                    ram: old(self).kernel_mapping(
                        span_page(crate::loader::cover_start(fb_base), k),
                    ).ram,
                }),
            forall|j: int|
                0 <= j < old(self).kernel_map().len() && !in_span(
                    crate::loader::cover_start(fb_base),
                    crate::loader::cover_count(fb_base, fb_len),
                    (#[trigger] old(self).kernel_map()[j]).page,
                ) ==> final(self).kernel_map()[j] == old(self).kernel_map()[j],
    {
        proof {
            crate::addr::lemma_ranges_disjoint();
        }
        let start_page = fb_base / 4096 * 4096;
        let last = fb_base + fb_len - 1;
        let count = (last / 4096 - fb_base / 4096) + 1;
        proof {
            assert(start_page % 4096 == 0 && start_page <= fb_base && last / 4096 * 4096
                == start_page + 4096 * (count - 1) && last / 4096 * 4096 <= last)
                by (nonlinear_arith)
                requires
                    start_page == fb_base / 4096 * 4096,
                    count == (last / 4096 - fb_base / 4096) + 1,
                    fb_base <= last,
            ;
            assert(start_page == crate::loader::cover_start(fb_base));
            assert(count == crate::loader::cover_count(fb_base, fb_len));
            assert(KERNEL_START <= start_page) by (nonlinear_arith)
                requires
                    start_page == fb_base / 4096 * 4096,
                    KERNEL_START <= fb_base,
                    KERNEL_START % 4096 == 0,
            ;
        }
        let ghost pre = *self;
        let mut i: u64 = 0;
        while i < count
            invariant
                self.wf(),
                pre.wf(),
                i <= count,
                count >= 1,
                page_aligned(start_page),
                in_kernel_range(start_page),
                in_kernel_range((start_page + 4096 * (count - 1)) as u64),
                start_page + 4096 * count <= 0x3A00_0000_1000,
                forall|k: int|
                    0 <= k < count ==> pre.kernel_maps_page(#[trigger] span_page(start_page, k)),
                self.kernel_map().len() == pre.kernel_map().len(),
                self.free_list() == pre.free_list(),
                self.user_map() == pre.user_map(),
                self.active_space() == pre.active_space(),
                self.kernel_slice() == pre.kernel_slice(),
                self.spaces_seq() == pre.spaces_seq(),
                self.store_seq() == pre.store_seq(),
                self.loaned_frames() == pre.loaned_frames(),
                forall|q: u64| self.kernel_maps_page(q) == pre.kernel_maps_page(q),
                forall|k: int|
                    0 <= k < count ==> #[trigger] self.kernel_mapping(span_page(start_page, k))
                        == if k < i {
                        (Mapping {
                            domain: pre.kernel_mapping(span_page(start_page, k)).domain,
                            page: span_page(start_page, k),
                            frame: pre.kernel_mapping(span_page(start_page, k)).frame,
                            flags: FLAGS_FRAMEBUFFER_WC,
                            ram: pre.kernel_mapping(span_page(start_page, k)).ram,
                        })
                    } else {
                        pre.kernel_mapping(span_page(start_page, k))
                    },
                forall|j: int|
                    0 <= j < pre.kernel_map().len() && !in_span(
                        start_page,
                        count,
                        (#[trigger] pre.kernel_map()[j]).page,
                    ) ==> self.kernel_map()[j] == pre.kernel_map()[j],
            decreases count - i,
        {
            let page = start_page + 4096 * i;
            proof {
                crate::addr::lemma_ranges_disjoint();
                assert(4096 * (i as int) <= 4096 * ((count - 1) as int));
                assert(page == span_page(start_page, i as int));
                assert(in_kernel_range(page));
                assert(self.kernel_maps_page(page));
            }
            let ghost before = *self;
            self.change_flags(page, FLAGS_FRAMEBUFFER_WC);
            proof {
                lemma_change_flags_kernel_pointwise(before, *self, page, FLAGS_FRAMEBUFFER_WC);
                assert forall|k: int|
                    0 <= k < count implies #[trigger] self.kernel_mapping(span_page(start_page, k))
                    == if k < i + 1 {
                    (Mapping {
                        domain: pre.kernel_mapping(span_page(start_page, k)).domain,
                        page: span_page(start_page, k),
                        frame: pre.kernel_mapping(span_page(start_page, k)).frame,
                        flags: FLAGS_FRAMEBUFFER_WC,
                        ram: pre.kernel_mapping(span_page(start_page, k)).ram,
                    })
                } else {
                    pre.kernel_mapping(span_page(start_page, k))
                } by {
                    let q = span_page(start_page, k);
                    if k != i {
                        assert(4096 * k <= 4096 * ((count - 1) as int));
                        assert(4096 * k != 4096 * (i as int));
                        assert(q != page);
                        assert(before.kernel_maps_page(q));
                        let j = choose|j: int|
                            0 <= j < before.kernel_map().len() && (
                            #[trigger] before.kernel_map()[j]).page == q;
                        assert(self.kernel_map()[j] == before.kernel_map()[j]);
                        let c2 = choose|c2: int|
                            0 <= c2 < self.kernel_map().len() && (
                            #[trigger] self.kernel_map()[c2]).page == q;
                        if c2 != j {
                            assert(self.kernel_map()[c2] == before.kernel_map()[c2]);
                            assert(before.kernel_map()[c2].page != before.kernel_map()[j].page);
                            assert(false);
                        }
                        assert(self.kernel_mapping(q) == before.kernel_mapping(q));
                    } else {
                        assert(before.kernel_mapping(page) == pre.kernel_mapping(page));
                    }
                }
                assert forall|j: int|
                    0 <= j < pre.kernel_map().len() && !in_span(
                        start_page,
                        count,
                        (#[trigger] pre.kernel_map()[j]).page,
                    ) implies self.kernel_map()[j] == pre.kernel_map()[j] by {
                    assert(before.kernel_map()[j] == pre.kernel_map()[j]);
                    if before.kernel_map()[j].page == page {
                        assert(in_span(start_page, count, pre.kernel_map()[j].page)) by {
                            assert(pre.kernel_map()[j].page == span_page(start_page, i as int));
                        }
                        assert(false);
                    }
                }
            }
            i += 1;
        }
    }
}

impl Memory {
    /// The contiguous physical range backing the RAM disk: walks the
    /// pages covering `[addr, addr + len)` through the active space and
    /// returns the first and last frame, or `None` when a page is
    /// unmapped or the frames are not consecutive. The frame pool is
    /// built with this range excluded, so the bootloader-provided RAM
    /// disk is never handed out as free memory; a non-contiguous RAM
    /// disk is a fatal condition for the kernel.
    pub fn ramdisk_physical_range(&self, addr: u64, len: u64) -> (r: Option<(u64, u64)>)
        requires
            self.wf(),
            1 <= len,
            in_kernel_range(addr),
            addr + len - 1 < crate::addr::KERNEL_END,
        ensures
            r is Some <==> ((forall|k: int|
                0 <= k < crate::loader::cover_count(addr, len) ==> self.active_maps_page(
                    #[trigger] span_page(crate::loader::cover_start(addr), k),
                )) && (forall|k: int|
                0 <= k < crate::loader::cover_count(addr, len) ==> self.active_mapping(
                    #[trigger] span_page(crate::loader::cover_start(addr), k),
                ).frame == self.active_mapping(
                    span_page(crate::loader::cover_start(addr), 0),
                ).frame + 4096 * k)),
            r matches Some(p) ==> p.0 == self.active_mapping(
                span_page(crate::loader::cover_start(addr), 0),
            ).frame && p.1 == p.0 + 4096 * (crate::loader::cover_count(addr, len) - 1),
    {
        proof {
            crate::addr::lemma_ranges_disjoint();
        }
        let start_page = addr / 4096 * 4096;
        let last_addr = addr + len - 1;
        let count = (last_addr / 4096 - addr / 4096) + 1;
        proof {
            assert(start_page % 4096 == 0 && start_page <= addr && last_addr / 4096 * 4096
                == start_page + 4096 * (count - 1) && last_addr / 4096 * 4096 <= last_addr)
                by (nonlinear_arith)
                requires
                    start_page == addr / 4096 * 4096,
                    count == (last_addr / 4096 - addr / 4096) + 1,
                    addr <= last_addr,
            ;
            assert(start_page == crate::loader::cover_start(addr));
            assert(count == crate::loader::cover_count(addr, len));
            assert(KERNEL_START <= start_page) by (nonlinear_arith)
                requires
                    start_page == addr / 4096 * 4096,
                    KERNEL_START <= addr,
                    KERNEL_START % 4096 == 0,
            ;
            assert(span_page(start_page, 0) == start_page);
        }
        let first = match self.translate(start_page) {
            Some(f) => f,
            None => {
                return None;
            },
        };
        let mut last = first;
        let mut k: u64 = 1;
        while k < count
            invariant
                self.wf(),
                1 <= k <= count,
                page_aligned(start_page),
                in_kernel_range(start_page),
                in_kernel_range((start_page + 4096 * (count - 1)) as u64),
                start_page + 4096 * count <= 0x3A00_0000_1000,
                count == crate::loader::cover_count(addr, len),
                start_page == crate::loader::cover_start(addr),
                self.active_maps_page(span_page(start_page, 0)),
                first == self.active_mapping(span_page(start_page, 0)).frame,
                forall|j: int|
                    0 <= j < k ==> self.active_maps_page(#[trigger] span_page(start_page, j))
                        && self.active_mapping(span_page(start_page, j)).frame == first + 4096 * j,
                last == first + 4096 * (k - 1),
            decreases count - k,
        {
            let page = start_page + 4096 * k;
            proof {
                crate::addr::lemma_ranges_disjoint();
                assert(4096 * (k as int) <= 4096 * ((count - 1) as int));
                assert(page == span_page(start_page, k as int));
                assert(page % 4096 == 0) by (nonlinear_arith)
                    requires
                        page == start_page + 4096 * k,
                        start_page % 4096 == 0,
                ;
            }
            let f = match self.translate(page) {
                Some(f) => f,
                None => {
                    return None;
                },
            };
            if last > u64::MAX - 4096 {
                proof {
                    assert(self.active_mapping(span_page(start_page, k as int)).frame
                        < first + 4096 * (k as int));
                }
                return None;
            }
            if f != last + 4096 {
                return None;
            }
            last = f;
            k += 1;
        }
        Some((first, last))
    }
}

/// A well-formed manager's free list holds no frame twice.
pub proof fn lemma_wf_free_distinct(m: Memory)
    requires
        m.wf(),
    ensures
        m.free_list().no_duplicates(),
{
}

/// Every user mapping belongs to an existing address space's domain.
pub proof fn lemma_user_domains_bounded(m: Memory)
    requires
        m.wf(),
    ensures
        forall|j: int|
            0 <= j < m.user_map().len() ==> (#[trigger] m.user_map()[j]).domain <= m.space_count(),
{
}

/// After `unmap(page)` on a user page, the active space no longer maps
/// it: the removed mapping was the only one, pages being unique per
/// domain.
pub proof fn lemma_unmap_user_clears(pre: Memory, post: Memory, page: u64, frame: u64)
    requires
        pre.wf(),
        !in_kernel_range(page),
        unmap_rel(pre, post, page, frame),
    ensures
        !post.user_maps_page(pre.active_space(), page),
{
    let k0 = choose|k: int|
        0 <= k < pre.user_map().len() && (#[trigger] pre.user_map()[k]).page == page
            && pre.user_map()[k].domain == pre.active_space() && frame == pre.user_map()[k].frame
            && post.user_map() == pre.user_map().remove(k) && post.loaned_frames()
            == pre.loaned_frames() + if pre.user_map()[k].ram {
            1u64
        } else {
            0u64
        } && unchanged_but_user_half(pre, post);
    lemma_remove_pointwise(pre.user_map(), k0);
    if post.user_maps_page(pre.active_space(), page) {
        let k = choose|k: int|
            0 <= k < post.user_map().len() && (#[trigger] post.user_map()[k]).domain
                == pre.active_space() && post.user_map()[k].page == page;
        let kk = if k < k0 {
            k
        } else {
            k + 1
        };
        assert(post.user_map()[k] == pre.user_map()[kk]);
        assert(!(pre.user_maps@[if kk < k0 {
            kk
        } else {
            k0
        }].domain == pre.user_maps@[if kk < k0 {
            k0
        } else {
            kk
        }].domain && pre.user_maps@[if kk < k0 {
            kk
        } else {
            k0
        }].page == pre.user_maps@[if kk < k0 {
            k0
        } else {
            kk
        }].page));
        assert(false);
    }
}

/// Mapping a fresh kernel page and then unmapping it is a no-op at the
/// allocator level and leaves no mapping for the page: the free list, the
/// kernel half and every other part of the manager return to their prior
/// state.
pub proof fn lemma_map_unmap_kernel_roundtrip(
    s0: Memory,
    s1: Memory,
    s2: Memory,
    page: u64,
    flags: u64,
    frame: u64,
)
    requires
        s0.wf(),
        in_kernel_range(page),
        !s0.kernel_maps_page(page),
        map_ram_kernel_rel(s0, s1, page, flags, frame),
        unmap_ram_rel(s1, s2, page),
    ensures
        s2.free_list() == s0.free_list(),
        s2.kernel_map() == s0.kernel_map(),
        s2.user_map() == s0.user_map(),
        s2.total() == s0.total(),
        s2.spaces_seq() == s0.spaces_seq(),
        s2.active_space() == s0.active_space(),
        s2.loaned_frames() == s0.loaned_frames(),
        !s2.kernel_maps_page(page),
{
    let m = Mapping { domain: 0, page, frame, flags: flags | FLAG_PRESENT, ram: true };
    assert(s1.kernel_map() == s0.kernel_map().push(m));
    let k = choose|k: int|
        0 <= k < s1.kernel_map().len() && (#[trigger] s1.kernel_map()[k]).page == page
            && s2.kernel_map() == s1.kernel_map().remove(k) && s2.free_list()
            == s1.free_list().push(s1.kernel_map()[k].frame) && s2.loaned_frames()
            == s1.loaned_frames() && unchanged_but_kernel_half(s1, s2);
    if k < s1.kernel_map().len() - 1 {
        assert(s1.kernel_map()[k] == s0.kernel_map()[k]);
        assert(s0.kernel_maps_page(page));
        assert(false);
    }
    assert(k == s1.kernel_map().len() - 1);
    assert(s1.kernel_map()[k] == m);
    assert(s2.kernel_map() =~= s0.kernel_map());
    assert(s2.free_list() =~= s0.free_list());
    if s2.kernel_maps_page(page) {
        let j = choose|j: int|
            0 <= j < s2.kernel_map().len() && (#[trigger] s2.kernel_map()[j]).page == page;
        assert(s0.kernel_map()[j].page == page);
        assert(s0.kernel_maps_page(page));
        assert(false);
    }
}

/// Every two user address spaces agree, entry for entry, on the kernel
/// slice of their top-level tables: equal entries refer to the same
/// underlying lower-level tables, so kernel mappings are shared.
pub proof fn lemma_kernel_slice_shared(m: Memory, h1: int, h2: int)
    requires
        m.wf(),
        0 <= h1 < m.space_count(),
        0 <= h2 < m.space_count(),
    ensures
        m.spaces_seq()[h1].slice() == m.spaces_seq()[h2].slice(),
        m.spaces_seq()[h1].slice() == m.kernel_slice(),
{
    assert(m.spaces_seq()[h1].slice() =~= m.kernel_slice());
    assert(m.spaces_seq()[h2].slice() =~= m.kernel_slice());
}

} // verus!
