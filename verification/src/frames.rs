//! The physical frame allocator.
//!
//! The kernel keeps a free list of 4 KiB frames, each free frame storing
//! the link to the next one in its own first bytes, reached through the
//! identity-mapped physical window. The pool object holds that list as a
//! stack of frame base addresses with the same LIFO behaviour: `allocate`
//! unlinks the head, `deallocate` links a new head.
//!
//! The pool is built from the firmware memory map: only usable regions that
//! do not start at physical zero contribute, each region is aligned inward to
//! 4 KiB, and every frame backing the RAM disk is excluded (the RAM disk's
//! physical range is required to be contiguous and is handed in as a range).

use vstd::prelude::*;

use crate::addr::page_aligned;

verus! {

/// One region of the firmware memory map, reduced to what the allocator
/// reads: its physical bounds and whether it is usable RAM.
pub struct MemoryRegion {
    /// First physical address of the region.
    pub start: u64,
    /// One past the last physical address of the region.
    pub end: u64,
    /// Whether the region is usable RAM.
    pub usable: bool,
}

/// `x` rounded up to the next 4 KiB boundary.
pub open spec fn spec_align_up(x: u64) -> int {
    ((x + 4095) / 4096) * 4096
}

/// `x` rounded down to a 4 KiB boundary.
pub open spec fn spec_align_down(x: u64) -> int {
    (x / 4096) * 4096
}

/// Whether region `r` contributes the frame with base address `a`: the
/// region is usable, does not start at zero, and the whole frame lies inside
/// the region aligned inward.
pub open spec fn region_holds_frame(r: MemoryRegion, a: u64) -> bool {
    &&& r.usable
    &&& r.start > 0
    &&& page_aligned(a)
    &&& spec_align_up(r.start) <= a
    &&& a + 4096 <= spec_align_down(r.end)
}

/// Whether the built pool holds frame `a`: some region contributes it and it
/// does not back the RAM disk (whose physical frames span `ex_lo ..= ex_hi`).
pub open spec fn frame_in_pool(regions: Seq<MemoryRegion>, ex_lo: u64, ex_hi: u64, a: u64) -> bool {
    &&& exists|i: int| 0 <= i < regions.len() && region_holds_frame(#[trigger] regions[i], a)
    &&& !(ex_lo <= a <= ex_hi)
}

/// Pairwise disjointness of the inward-aligned region ranges, as the
/// firmware memory map guarantees.
pub open spec fn regions_disjoint(regions: Seq<MemoryRegion>) -> bool {
    forall|i: int, j: int|
        0 <= i < j < regions.len() ==> spec_align_down(#[trigger] regions[i].end)
            <= spec_align_up(#[trigger] regions[j].start) || spec_align_down(regions[j].end)
            <= spec_align_up(regions[i].start)
}

/// All region addresses fit in the 48-bit physical address space.
pub open spec fn regions_bounded(regions: Seq<MemoryRegion>) -> bool {
    forall|i: int|
        0 <= i < regions.len() ==> (#[trigger] regions[i]).start <= 0x1_0000_0000_0000u64
            && regions[i].end <= 0x1_0000_0000_0000u64
}

proof fn lemma_aligned_step(x: u64, y: u64)
    requires
        x % 4096 == 0,
        y % 4096 == 0,
        x < y,
    ensures
        x + 4096 <= y,
{
    assert(x + 4096 <= y) by (nonlinear_arith)
        requires
            x % 4096 == 0,
            y % 4096 == 0,
            x < y,
    ;
}

fn align_up_4k(x: u64) -> (r: u64)
    requires
        x <= 0x1_0000_0000_0000u64,
    ensures
        r == spec_align_up(x),
        r % 4096 == 0,
        x <= r,
{
    proof {
        assert(((x + 4095) as int / 4096) * 4096 % 4096 == 0) by (nonlinear_arith);
        assert(x <= ((x + 4095) as int / 4096) * 4096) by (nonlinear_arith);
        assert(((x + 4095) as int / 4096) * 4096 <= x + 4095) by (nonlinear_arith);
    }
    ((x + 4095) / 4096) * 4096
}

fn align_down_4k(x: u64) -> (r: u64)
    ensures
        r == spec_align_down(x),
        r % 4096 == 0,
        r <= x,
{
    proof {
        assert((x as int / 4096) * 4096 % 4096 == 0) by (nonlinear_arith);
        assert((x as int / 4096) * 4096 <= x) by (nonlinear_arith);
    }
    (x / 4096) * 4096
}

/// The physical frame allocator, built once from the boot memory map.
pub struct BootInfoFrameAllocator {
    free: Vec<u64>,
    total_frames: u64,
}

impl BootInfoFrameAllocator {
    /// The free list, head last.
    pub closed spec fn free_list(self) -> Seq<u64> {
        self.free@
    }

    /// The number of frames the pool was built with.
    pub closed spec fn total(self) -> u64 {
        self.total_frames
    }

    /// Well-formedness: the free list never exceeds the pool size, holds no
    /// frame twice, and holds only page-aligned addresses.
    pub open spec fn wf(self) -> bool {
        &&& self.free_list().len() <= self.total()
        &&& self.free_list().no_duplicates()
        &&& forall|k: int|
            0 <= k < self.free_list().len() ==> page_aligned(#[trigger] self.free_list()[k])
    }

    /// Builds the pool from the memory map. `ex_lo ..= ex_hi` is the
    /// contiguous physical range backing the RAM disk, whose frames are
    /// excluded so that the bootloader-provided RAM disk is never handed out
    /// as free memory.
    pub fn new(regions: &Vec<MemoryRegion>, ex_lo: u64, ex_hi: u64) -> (r: Self)
        requires
            regions_disjoint(regions@),
            regions_bounded(regions@),
        ensures
            r.wf(),
            r.free_list().len() == r.total(),
            forall|a: u64| r.free_list().contains(a) <==> frame_in_pool(regions@, ex_lo, ex_hi, a),
    {
        let mut free: Vec<u64> = Vec::new();
        let mut i: usize = 0;
        while i < regions.len()
            invariant
                regions_disjoint(regions@),
                regions_bounded(regions@),
                i <= regions.len(),
                free@.no_duplicates(),
                forall|k: int| 0 <= k < free@.len() ==> page_aligned(#[trigger] free@[k]),
                forall|a: u64|
                    free@.contains(a) <==> frame_in_pool(
                        regions@.take(i as int),
                        ex_lo,
                        ex_hi,
                        a,
                    ),
            decreases regions.len() - i,
        {
            let r = &regions[i];
            if r.usable && r.start > 0 {
                let mut a = align_up_4k(r.start);
                let end = align_down_4k(r.end);
                while a + 4096 <= end
                    invariant
                        regions_disjoint(regions@),
                        regions_bounded(regions@),
                        i < regions.len(),
                        *r == regions@[i as int],
                        r.usable,
                        r.start > 0,
                        end == spec_align_down(r.end),
                        end <= 0x1_0000_0000_0000u64,
                        a % 4096 == 0,
                        spec_align_up(r.start) <= a,
                        a <= 0x1_0000_0000_0000u64 + 4096,
                        free@.no_duplicates(),
                        forall|k: int| 0 <= k < free@.len() ==> page_aligned(#[trigger] free@[k]),
                        forall|x: u64|
                            free@.contains(x) <==> (frame_in_pool(
                                regions@.take(i as int),
                                ex_lo,
                                ex_hi,
                                x,
                            ) || (region_holds_frame(regions@[i as int], x) && !(ex_lo <= x
                                <= ex_hi) && x < a)),
                    decreases end - a,
                {
                    let ghost pre = free@;
                    let ghost a0 = a;
                    if !(ex_lo <= a && a <= ex_hi) {
                        proof {
                            if pre.contains(a) {
                                assert(frame_in_pool(regions@.take(i as int), ex_lo, ex_hi, a));
                                let j = choose|j: int|
                                    0 <= j < i && region_holds_frame(
                                        #[trigger] regions@.take(i as int)[j],
                                        a,
                                    );
                                assert(region_holds_frame(regions@[j], a));
                                assert(region_holds_frame(regions@[i as int], a));
                                assert(false);
                            }
                        }
                        free.push(a);
                        proof {
                            assert forall|x: u64| free@.contains(x) <==> (pre.contains(x) || x
                                == a0) by {
                                if free@.contains(x) {
                                    let k = choose|k: int|
                                        0 <= k < free@.len() && free@[k] == x;
                                    if k < pre.len() {
                                        assert(pre[k] == x);
                                    }
                                }
                                if pre.contains(x) {
                                    let k = choose|k: int| 0 <= k < pre.len() && pre[k] == x;
                                    assert(free@[k] == x);
                                }
                                if x == a0 {
                                    assert(free@[free@.len() - 1] == x);
                                }
                            }
                            assert(free@.no_duplicates()) by {
                                assert forall|p: int, q: int|
                                    0 <= p < q < free@.len() implies free@[p] != free@[q] by {
                                    if q < free@.len() - 1 {
                                        assert(pre[p] != pre[q]);
                                    } else {
                                        assert(free@[q] == a0);
                                        assert(pre[p] == free@[p]);
                                        assert(pre.contains(free@[p]));
                                    }
                                }
                            }
                        }
                    }
                    a += 4096;
                    proof {
                        assert forall|x: u64|
                            free@.contains(x) <==> (frame_in_pool(
                                regions@.take(i as int),
                                ex_lo,
                                ex_hi,
                                x,
                            ) || (region_holds_frame(regions@[i as int], x) && !(ex_lo <= x
                                <= ex_hi) && x < a)) by {
                            assert(pre.contains(x) <==> (frame_in_pool(
                                regions@.take(i as int),
                                ex_lo,
                                ex_hi,
                                x,
                            ) || (region_holds_frame(regions@[i as int], x) && !(ex_lo <= x
                                <= ex_hi) && x < a0)));
                            if free@.contains(x) {
                                if pre.contains(x) {
                                    assert(frame_in_pool(regions@.take(i as int), ex_lo, ex_hi, x)
                                        || (region_holds_frame(regions@[i as int], x) && !(ex_lo
                                        <= x <= ex_hi) && x < a0));
                                } else {
                                    assert(x == a0);
                                    assert(region_holds_frame(regions@[i as int], a0));
                                }
                            }
                            if region_holds_frame(regions@[i as int], x) && !(ex_lo <= x <= ex_hi)
                                && x < a {
                                if x < a0 {
                                    assert(pre.contains(x));
                                    assert(free@.contains(x));
                                } else if x == a0 {
                                    assert(free@.contains(x));
                                } else {
                                    lemma_aligned_step(a0, x);
                                    assert(false);
                                }
                            }
                        }
                    }
                }
                proof {
                    assert forall|x: u64| region_holds_frame(regions@[i as int], x) implies x
                        < a by {
                        assert(x + 4096 <= end);
                    }
                }
            }
            proof {
                assert forall|x: u64|
                    frame_in_pool(regions@.take(i + 1 as int), ex_lo, ex_hi, x) == (frame_in_pool(
                        regions@.take(i as int),
                        ex_lo,
                        ex_hi,
                        x,
                    ) || (region_holds_frame(regions@[i as int], x) && !(ex_lo <= x
                        <= ex_hi))) by {
                    if frame_in_pool(regions@.take(i + 1 as int), ex_lo, ex_hi, x) {
                        let j = choose|j: int|
                            0 <= j < i + 1 && region_holds_frame(
                                #[trigger] regions@.take(i + 1 as int)[j],
                                x,
                            );
                        if j < i {
                            assert(region_holds_frame(regions@.take(i as int)[j], x));
                        } else {
                            assert(region_holds_frame(regions@[i as int], x));
                        }
                    }
                    if frame_in_pool(regions@.take(i as int), ex_lo, ex_hi, x) {
                        let j = choose|j: int|
                            0 <= j < i && region_holds_frame(
                                #[trigger] regions@.take(i as int)[j],
                                x,
                            );
                        assert(region_holds_frame(regions@.take(i + 1 as int)[j], x));
                    }
                    if region_holds_frame(regions@[i as int], x) && !(ex_lo <= x <= ex_hi) {
                        assert(region_holds_frame(regions@.take(i + 1 as int)[i as int], x));
                    }
                }
            }
            i += 1;
        }
        proof {
            assert(regions@.take(regions@.len() as int) =~= regions@);
        }
        let total = free.len() as u64;
        BootInfoFrameAllocator { free, total_frames: total }
    }

    /// Unlinks and returns the head of the free list; `None` when the pool
    /// is exhausted (callers promote that to a fatal out-of-memory error).
    pub fn allocate_frame(&mut self) -> (r: Option<u64>)
        requires
            old(self).wf(),
        ensures
            final(self).wf(),
            final(self).total() == old(self).total(),
            old(self).free_list().len() == 0 ==> r is None && final(self).free_list() == old(
                self,
            ).free_list(),
            old(self).free_list().len() > 0 ==> {
                &&& r == Some(old(self).free_list().last())
                &&& final(self).free_list() == old(self).free_list().drop_last()
                &&& page_aligned(r.unwrap())
                &&& !final(self).free_list().contains(r.unwrap())
            },
    {
        proof {
            if self.free@.len() > 0 {
                assert(self.free@.drop_last().no_duplicates());
                if self.free@.drop_last().contains(self.free@.last()) {
                    let k = choose|k: int|
                        0 <= k < self.free@.len() - 1 && self.free@.drop_last()[k] == self.free@.last();
                    assert(self.free@[k] == self.free@[self.free@.len() - 1]);
                    assert(false);
                }
            }
        }
        self.free.pop()
    }

    /// Links `frame` in as the new head of the free list. Freeing a frame
    /// that is already free corrupts the pool and is excluded here; the
    /// pool does not detect a double free.
    pub fn deallocate_frame(&mut self, frame: u64)
        requires
            old(self).wf(),
            !old(self).free_list().contains(frame),
            page_aligned(frame),
            old(self).free_list().len() < old(self).total(),
        ensures
            final(self).wf(),
            final(self).total() == old(self).total(),
            final(self).free_list() == old(self).free_list().push(frame),
    {
        self.free.push(frame);
    }

    /// How many frames are currently free.
    pub fn free_frames(&self) -> (r: u64)
        requires
            self.wf(),
        ensures
            r == self.free_list().len(),
    {
        self.free.len() as u64
    }

    /// How many frames the pool was built with.
    pub fn total_frames(&self) -> (r: u64)
        ensures
            r == self.total(),
    {
        self.total_frames
    }
}

/// One step of the allocator's client-visible behaviour, for stating laws
/// over whole call sequences.
pub enum FrameOpKind {
    /// A call of `allocate_frame`.
    Allocate,
    /// A call of `deallocate_frame` with a frame the caller still holds.
    Deallocate,
}

/// Runs a sequence of allocator operations over the pair (free frames, frames
/// held by callers), counting only. An `Allocate` on an empty pool and a
/// `Deallocate` with nothing held leave the state unchanged, as the
/// operations' contracts make those calls yield `None` or exclude them.
pub open spec fn run_frame_ops(free: nat, held: nat, ops: Seq<FrameOpKind>) -> (nat, nat)
    decreases ops.len(),
{
    if ops.len() == 0 {
        (free, held)
    } else {
        let prev = run_frame_ops(free, held, ops.drop_last());
        match ops.last() {
            FrameOpKind::Allocate => if prev.0 > 0 {
                ((prev.0 - 1) as nat, (prev.1 + 1) as nat)
            } else {
                prev
            },
            FrameOpKind::Deallocate => if prev.1 > 0 {
                ((prev.0 + 1) as nat, (prev.1 - 1) as nat)
            } else {
                prev
            },
        }
    }
}

/// For every sequence of `allocate`/`deallocate` calls, the sum of free
/// frames and frames in use is constant: the pool neither leaks nor invents
/// frames.
pub proof fn lemma_frame_conservation(free: nat, held: nat, ops: Seq<FrameOpKind>)
    ensures
        run_frame_ops(free, held, ops).0 + run_frame_ops(free, held, ops).1 == free + held,
    decreases ops.len(),
{
    if ops.len() > 0 {
        lemma_frame_conservation(free, held, ops.drop_last());
    }
}

/// After deallocating every allocated frame, the free-frame count returns to
/// its initial value.
pub proof fn lemma_free_count_restored(free: nat, ops: Seq<FrameOpKind>)
    requires
        run_frame_ops(free, 0, ops).1 == 0,
    ensures
        run_frame_ops(free, 0, ops).0 == free,
{
    lemma_frame_conservation(free, 0, ops);
}

} // verus!
