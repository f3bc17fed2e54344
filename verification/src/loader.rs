//! The user-program loader.
//!
//! `prepare_application` builds a fresh address space from an ELF-64 image:
//! every loadable segment's page range is mapped writable so initialization
//! can proceed, then downgraded to its final flags; a user heap and the
//! user stack (one guard page, then the usable pages) complete the space.
//! `run` installs the per-core running-program record, pivots onto the user
//! stack (a machine-level transfer that lives outside the library), and
//! clears the record when the program returns or aborts.

use vstd::prelude::*;

use crate::addr::{in_user_range, page_aligned, USER_STACK_SIZE, USER_STACK_START};
use crate::heap::{create_user_heap, HeapState};
use crate::paging::{lemma_change_flags_user_pointwise, range_mappings, span_page, Mapping, Memory,
    FLAG_NO_EXECUTE, FLAG_PRESENT, FLAG_USER_ACCESSIBLE, FLAG_WRITABLE};
use crate::percore::{CoreLocalData, RunningApplicationCLD};

verus! {

/// The ELF segment type of loadable segments.
pub const PT_LOAD: u32 = 1;
/// The ELF executable segment flag.
pub const PF_X: u32 = 1;
/// The ELF writable segment flag.
pub const PF_W: u32 = 2;
/// The ELF readable segment flag.
pub const PF_R: u32 = 4;

/// One program header of an ELF image, with its file data.
pub struct ElfSegment {
    /// The segment type; only `PT_LOAD` segments are mapped.
    pub p_type: u32,
    /// The virtual address the segment loads at.
    pub vaddr: u64,
    /// The segment's size in memory.
    pub memsz: u64,
    /// The ELF permission flags.
    pub flags: u32,
    /// The segment's bytes as stored in the file.
    pub data: Vec<u8>,
}

/// Relies on elf's `ElfBytes::minimal_parse`, `ElfBytes::segments`,
/// `SegmentTable` iteration and `ElfBytes::segment_data` to parse an ELF-64
/// little-endian image: returns the entry point and every program header
/// with its file data, or `None` when the image is malformed.
#[verifier::external_body]
fn parse_elf(file: &[u8]) -> (r: Option<(u64, Vec<ElfSegment>)>)
    ensures
        r is Some <==> elf_parse_of(file@) is Some,
        r matches Some(p) ==> elf_parse_of(file@) == Some((p.0, seg_views(p.1@))),
{
    let f = elf::ElfBytes::<elf::endian::LittleEndian>::minimal_parse(file).ok()?;
    let table = f.segments()?;
    let mut segs = Vec::new();
    for s in table {
        let data = f.segment_data(&s).ok()?.to_vec();
        segs.push(ElfSegment { p_type: s.p_type, vaddr: s.p_vaddr, memsz: s.p_memsz, flags: s.p_flags, data });
    }
    Some((f.ehdr.e_entry, segs))
}

/// The final page-table flags of a segment with the given ELF flags, before
/// USER_ACCESSIBLE and PRESENT are added: not-executable unless the segment
/// is executable and not writable; writable exactly when the segment is.
pub open spec fn spec_segment_flags(raw: u32) -> u64 {
    (if raw & PF_X == 0 || raw & PF_W != 0 {
        FLAG_NO_EXECUTE
    } else {
        0
    }) | (if raw & PF_W != 0 {
        FLAG_WRITABLE
    } else {
        0
    })
}

/// Computes a segment's page-table flags from its ELF flags.
pub fn compute_segment_flags(raw: u32) -> (r: u64)
    ensures
        r == spec_segment_flags(raw),
{
    let mut flags: u64 = 0;
    if raw & PF_X == 0 || raw & PF_W != 0 {
        flags = flags | FLAG_NO_EXECUTE;
    }
    if raw & PF_W != 0 {
        flags = flags | FLAG_WRITABLE;
    }
    proof {
        assert((0u64 | FLAG_NO_EXECUTE) == FLAG_NO_EXECUTE && (FLAG_NO_EXECUTE | 0u64)
            == FLAG_NO_EXECUTE && (0u64 | FLAG_WRITABLE) == FLAG_WRITABLE && (0u64 | 0u64) == 0u64
            && ((0u64 | FLAG_NO_EXECUTE) | FLAG_WRITABLE) == (FLAG_NO_EXECUTE | FLAG_WRITABLE))
            by (bit_vector);
    }
    flags
}

/// The base of the first page covering `addr`.
pub open spec fn cover_start(addr: u64) -> u64 {
    (addr / 4096 * 4096) as u64
}

/// How many pages cover `size` bytes starting at `addr`.
pub open spec fn cover_count(addr: u64, size: u64) -> u64 {
    (((addr + size - 1) / 4096 - addr / 4096) + 1) as u64
}

/// The parts of a parsed segment the loader reads: its view.
pub struct ElfSegmentV {
    /// The segment type; only `PT_LOAD` segments are mapped.
    pub p_type: u32,
    /// The virtual address the segment loads at.
    pub vaddr: u64,
    /// The segment's size in memory.
    pub memsz: u64,
    /// The ELF permission flags.
    pub flags: u32,
    /// The segment's bytes as stored in the file.
    pub data: Seq<u8>,
}

/// The view of one parsed segment.
pub open spec fn seg_view(s: ElfSegment) -> ElfSegmentV {
    ElfSegmentV { p_type: s.p_type, vaddr: s.vaddr, memsz: s.memsz, flags: s.flags, data: s.data@ }
}

/// The views of a parsed segment table.
pub open spec fn seg_views(segs: Seq<ElfSegment>) -> Seq<ElfSegmentV> {
    segs.map_values(|s: ElfSegment| seg_view(s))
}

/// What parsing a little-endian ELF-64 image yields: the entry point and
/// the program headers with their file bytes, or nothing for a malformed
/// image. The parse depends on the bytes alone.
pub uninterp spec fn elf_parse_of(file: Seq<u8>) -> Option<(u64, Seq<ElfSegmentV>)>;

/// Whether the loader maps this segment: a loadable segment with memory.
pub open spec fn seg_loadable(s: ElfSegmentV) -> bool {
    s.p_type == PT_LOAD && s.memsz > 0
}

/// Whether the mapping sequence maps `page` in `domain`.
pub open spec fn seq_maps_page(um: Seq<Mapping>, domain: usize, page: u64) -> bool {
    exists|j: int| 0 <= j < um.len() && (#[trigger] um[j]).domain == domain && um[j].page == page
}

/// Whether none of the `count` pages from `start` is mapped in `domain`.
pub open spec fn span_free(um: Seq<Mapping>, domain: usize, start: u64, count: u64) -> bool {
    forall|k: int| 0 <= k < count ==> !seq_maps_page(um, domain, #[trigger] span_page(start, k))
}

/// The outcome of loading the first `n` segments into `domain`, starting
/// from user half `um` and free list `fl`: the resulting user half and
/// free list, or the first segment's error - unreadable and unexecutable,
/// more file bytes than memory, out of the user window, or overlapping an
/// earlier mapping give `BadSegment`; an exhausted pool gives
/// `OutOfMemory`.
pub open spec fn load_outcome(
    domain: usize,
    segs: Seq<ElfSegmentV>,
    n: int,
    um: Seq<Mapping>,
    fl: Seq<u64>,
) -> Result<(Seq<Mapping>, Seq<u64>), LoaderError>
    decreases n,
{
    if n <= 0 {
        Ok((um, fl))
    } else {
        match load_outcome(domain, segs, n - 1, um, fl) {
            Err(e) => Err(e),
            Ok(prev) => {
                let seg = segs[n - 1];
                if !seg_loadable(seg) {
                    Ok(prev)
                } else if seg.flags & PF_R == 0 && seg.flags & PF_X == 0 {
                    Err(LoaderError::BadSegment)
                } else if seg.data.len() > seg.memsz {
                    Err(LoaderError::BadSegment)
                } else if !(seg.vaddr < crate::addr::USER_END && crate::addr::USER_END - seg.vaddr
                    >= seg.memsz) {
                    Err(LoaderError::BadSegment)
                } else if prev.1.len() < cover_count(seg.vaddr, seg.memsz) {
                    Err(LoaderError::OutOfMemory)
                } else if !span_free(
                    prev.0,
                    domain,
                    cover_start(seg.vaddr),
                    cover_count(seg.vaddr, seg.memsz),
                ) {
                    Err(LoaderError::BadSegment)
                } else {
                    Ok(
                        (
                            prev.0 + range_mappings(
                                domain,
                                cover_start(seg.vaddr),
                                cover_count(seg.vaddr, seg.memsz),
                                spec_segment_flags(seg.flags) | FLAG_USER_ACCESSIBLE
                                    | FLAG_PRESENT,
                                prev.1,
                            ),
                            prev.1.take(
                                prev.1.len() - cover_count(seg.vaddr, seg.memsz),
                            ),
                        ),
                    )
                }
            },
        }
    }
}

proof fn lemma_load_outcome_err(
    domain: usize,
    segs: Seq<ElfSegmentV>,
    n: int,
    m: int,
    um: Seq<Mapping>,
    fl: Seq<u64>,
)
    requires
        0 <= n <= m,
        load_outcome(domain, segs, n, um, fl) is Err,
    ensures
        load_outcome(domain, segs, m, um, fl) == load_outcome(domain, segs, n, um, fl),
    decreases m,
{
    if m > n {
        lemma_load_outcome_err(domain, segs, n, m - 1, um, fl);
    }
}

/// What preparing a program from parsed segments yields, relating the
/// states before and after: with an empty pool, `OutOfMemory`; otherwise
/// one frame backs the new top-level table and the segments load in order
/// per `load_outcome`; its first error, if any, is the result, and
/// otherwise the user stack follows - short of frames `OutOfMemory`,
/// overlapping `BadSegment`, else success with exactly the loaded
/// segments and the stack mapped in the new space.
pub open spec fn prepare_result_spec(
    pre: Memory,
    post: Memory,
    r: Result<ApplicationResources, LoaderError>,
    entry: u64,
    views: Seq<ElfSegmentV>,
) -> bool {
    if pre.free_list().len() == 0 {
        r == Err::<ApplicationResources, LoaderError>(LoaderError::OutOfMemory)
    } else {
        let d = (pre.space_count() + 1) as usize;
        let out = load_outcome(
            d,
            views,
            views.len() as int,
            pre.user_map(),
            pre.free_list().drop_last(),
        );
        match out {
            Err(e) => r == Err::<ApplicationResources, LoaderError>(e),
            Ok(p) => {
                if p.1.len() >= USER_STACK_PAGES && span_free(
                    p.0,
                    d,
                    (USER_STACK_START + 4096) as u64,
                    USER_STACK_PAGES,
                ) {
                    &&& r matches Ok(res) && res.address_space == pre.space_count()
                        && res.entry_point_virt_addr == entry && res.heap.total_bytes == 0
                    &&& post.user_map() == p.0 + range_mappings(
                        d,
                        (USER_STACK_START + 4096) as u64,
                        USER_STACK_PAGES,
                        FLAG_WRITABLE | FLAG_NO_EXECUTE | FLAG_USER_ACCESSIBLE | FLAG_PRESENT,
                        p.1,
                    )
                    &&& post.free_list() == p.1.take(p.1.len() - USER_STACK_PAGES)
                    &&& post.space_count() == pre.space_count() + 1
                    &&& post.spaces_seq()[pre.space_count() as int].slice() == pre.kernel_slice()
                } else if p.1.len() < USER_STACK_PAGES {
                    r == Err::<ApplicationResources, LoaderError>(LoaderError::OutOfMemory)
                } else {
                    r == Err::<ApplicationResources, LoaderError>(LoaderError::BadSegment)
                }
            },
        }
    }
}

/// Maps the page range covering `[virt_addr, virt_addr + size)` in the
/// active space: first writable so the kernel can zero the region and copy
/// the file data in, then downgraded to `flags | USER_ACCESSIBLE |
/// PRESENT`, the same
/// two-phase initialization the kernel performs.
pub fn map_segment(mem: &mut Memory, virt_addr: u64, size: u64, flags: u64)
    requires
        old(mem).wf(),
        1 <= size,
        in_user_range(virt_addr),
        virt_addr + size - 1 < crate::addr::USER_END,
        old(mem).free_list().len() >= cover_count(virt_addr, size),
        forall|k: int|
            0 <= k < cover_count(virt_addr, size) ==> !old(mem).user_maps_page(
                old(mem).active_space(),
                #[trigger] span_page(cover_start(virt_addr), k),
            ),
    ensures
        final(mem).wf(),
        final(mem).free_list() == old(mem).free_list().take(
            old(mem).free_list().len() - cover_count(virt_addr, size),
        ),
        final(mem).user_map() == old(mem).user_map() + range_mappings(
            old(mem).active_space(),
            cover_start(virt_addr),
            cover_count(virt_addr, size),
            flags | FLAG_USER_ACCESSIBLE | FLAG_PRESENT,
            old(mem).free_list(),
        ),
        final(mem).kernel_map() == old(mem).kernel_map(),
        final(mem).active_space() == old(mem).active_space(),
        final(mem).space_count() == old(mem).space_count(),
        final(mem).kernel_slice() == old(mem).kernel_slice(),
        final(mem).spaces_seq() == old(mem).spaces_seq(),
        final(mem).store_seq() == old(mem).store_seq(),
        final(mem).loaned_frames() == old(mem).loaned_frames(),
{
    proof {
        crate::addr::lemma_ranges_disjoint();
    }
    let start_page = virt_addr / 4096 * 4096;
    let last = virt_addr + size - 1;
    let count = (last / 4096 - virt_addr / 4096) + 1;
    proof {
        assert(start_page % 4096 == 0 && start_page <= virt_addr && last / 4096 * 4096 + 4095
            >= last && last / 4096 * 4096 == start_page + 4096 * (count - 1)) by (nonlinear_arith)
            requires
                start_page == virt_addr / 4096 * 4096,
                count == (last / 4096 - virt_addr / 4096) + 1,
                virt_addr <= last,
        ;
        assert(in_user_range((start_page + 4096 * (count - 1)) as u64));
        assert(start_page == cover_start(virt_addr));
        assert(count == cover_count(virt_addr, size));
        assert(start_page + 4096 * count <= 0x8000_0000_0001);
    }
    mem.map_ram_user_range(start_page, count, flags | FLAG_WRITABLE);
    let ghost pre = *old(mem);
    let ghost phase1 = (flags | FLAG_WRITABLE) | FLAG_USER_ACCESSIBLE | FLAG_PRESENT;
    let ghost phase2 = flags | FLAG_USER_ACCESSIBLE | FLAG_PRESENT;
    let mut i: u64 = 0;
    while i < count
        invariant
            mem.wf(),
            pre.wf(),
            i <= count,
            page_aligned(start_page),
            in_user_range(start_page),
            in_user_range((start_page + 4096 * (count - 1)) as u64),
            start_page + 4096 * count <= 0x8000_0000_0001,
            count >= 1,
            pre.free_list().len() >= count,
            forall|k: int|
                0 <= k < count ==> !pre.user_maps_page(
                    pre.active_space(),
                    #[trigger] span_page(start_page, k),
                ),
            phase1 == (flags | FLAG_WRITABLE) | FLAG_USER_ACCESSIBLE | FLAG_PRESENT,
            phase2 == flags | FLAG_USER_ACCESSIBLE | FLAG_PRESENT,
            mem.free_list() == pre.free_list().take(pre.free_list().len() - count),
            mem.user_map().len() == pre.user_map().len() + count,
            forall|j: int| 0 <= j < pre.user_map().len() ==> #[trigger] mem.user_map()[j]
                == pre.user_map()[j],
            forall|k: int|
                0 <= k < count ==> #[trigger] mem.user_map()[pre.user_map().len() + k] == (Mapping {
                    domain: pre.active_space(),
                    page: span_page(start_page, k),
                    frame: pre.free_list()[pre.free_list().len() - 1 - k],
                    flags: if k < i {
                        phase2
                    } else {
                        phase1
                    },
                    ram: true,
                }),
            mem.kernel_map() == pre.kernel_map(),
            mem.active_space() == pre.active_space(),
            mem.kernel_slice() == pre.kernel_slice(),
            mem.spaces_seq() == pre.spaces_seq(),
            mem.store_seq() == pre.store_seq(),
            mem.loaned_frames() == pre.loaned_frames(),
        decreases count - i,
    {
        let page = start_page + 4096 * i;
        proof {
            crate::addr::lemma_ranges_disjoint();
            assert(4096 * (i as int) <= 4096 * ((count - 1) as int));
            assert(page == span_page(start_page, i as int));
            assert(in_user_range(page));
            assert(mem.user_map()[pre.user_map().len() + i as int] == (Mapping {
                domain: pre.active_space(),
                page: span_page(start_page, i as int),
                frame: pre.free_list()[pre.free_list().len() - 1 - i],
                flags: phase1,
                ram: true,
            }));
            assert(mem.user_map()[pre.user_map().len() + i].page == page);
            assert(mem.user_map()[pre.user_map().len() + i].domain == mem.active_space());
            assert(mem.user_maps_page(mem.active_space(), page));
        }
        let ghost before = *mem;
        mem.change_flags(page, flags | FLAG_USER_ACCESSIBLE | FLAG_PRESENT);
        proof {
            lemma_change_flags_user_pointwise(before, *mem, page, phase2);
            let ghost c = choose|c: int|
                0 <= c < before.user_map().len() && (#[trigger] before.user_map()[c]).page == page
                    && before.user_map()[c].domain == before.active_space() && mem.user_map()
                    == before.user_map().update(
                    c,
                    (Mapping {
                        domain: before.user_map()[c].domain,
                        page,
                        frame: before.user_map()[c].frame,
                        flags: phase2,
                        ram: before.user_map()[c].ram,
                    }),
                ) && crate::paging::unchanged_but_user_half(before, *mem);
            if c != pre.user_map().len() + i {
                if c < pre.user_map().len() {
                    assert(pre.user_map()[c].domain == pre.active_space() && pre.user_map()[c].page
                        == page);
                    assert(pre.user_maps_page(pre.active_space(), page));
                    assert(false);
                } else {
                    let ghost k2 = c - pre.user_map().len();
                    assert(before.user_map()[pre.user_map().len() + k2] == (Mapping {
                        domain: pre.active_space(),
                        page: span_page(start_page, k2),
                        frame: pre.free_list()[pre.free_list().len() - 1 - k2],
                        flags: if k2 < i {
                            phase2
                        } else {
                            phase1
                        },
                        ram: true,
                    }));
                    assert(before.user_map()[c].page == span_page(start_page, k2));
                    assert(4096 * k2 <= 4096 * ((count - 1) as int));
                    assert(4096 * k2 != 4096 * (i as int));
                    assert(false);
                }
            }
            assert forall|j: int|
                0 <= j < pre.user_map().len() implies #[trigger] mem.user_map()[j]
                == pre.user_map()[j] by {
                if before.user_map()[j].domain == before.active_space()
                    && before.user_map()[j].page == page {
                    assert(pre.user_maps_page(pre.active_space(), page));
                    assert(false);
                }
            }
            assert forall|k: int|
                0 <= k < count implies #[trigger] mem.user_map()[pre.user_map().len() + k] == (
            Mapping {
                domain: pre.active_space(),
                page: span_page(start_page, k),
                frame: pre.free_list()[pre.free_list().len() - 1 - k],
                flags: if k < i + 1 {
                    phase2
                } else {
                    phase1
                },
                ram: true,
            }) by {
                assert(before.user_map()[pre.user_map().len() + k] == (Mapping {
                    domain: pre.active_space(),
                    page: span_page(start_page, k),
                    frame: pre.free_list()[pre.free_list().len() - 1 - k],
                    flags: if k < i {
                        phase2
                    } else {
                        phase1
                    },
                    ram: true,
                }));
                if k != i {
                    assert(4096 * k <= 4096 * ((count - 1) as int));
                    assert(4096 * k != 4096 * (i as int));
                    assert(before.user_map()[pre.user_map().len() + k].page != page);
                } else {
                    assert(mem.user_map()[c] == (Mapping {
                        domain: before.user_map()[c].domain,
                        page,
                        frame: before.user_map()[c].frame,
                        flags: phase2,
                        ram: before.user_map()[c].ram,
                    }));
                }
            }
        }
        i += 1;
    }
    proof {
        let ghost target = pre.user_map() + range_mappings(
            pre.active_space(),
            cover_start(virt_addr),
            cover_count(virt_addr, size),
            flags | FLAG_USER_ACCESSIBLE | FLAG_PRESENT,
            pre.free_list(),
        );
        assert forall|j: int| 0 <= j < mem.user_map().len() implies #[trigger] mem.user_map()[j]
            == target[j] by {
            if j < pre.user_map().len() {
                assert(mem.user_map()[j] == pre.user_map()[j]);
            } else {
                let k = j - pre.user_map().len();
                assert(mem.user_map()[pre.user_map().len() + k] == (Mapping {
                    domain: pre.active_space(),
                    page: span_page(start_page, k),
                    frame: pre.free_list()[pre.free_list().len() - 1 - k],
                    flags: phase2,
                    ram: true,
                }));
            }
        }
        assert(mem.user_map() =~= target);
    }
}

/// Whether none of the `count` pages from `start` is mapped in the active
/// space.
fn span_unmapped(mem: &Memory, start: u64, count: u64) -> (r: bool)
    requires
        mem.wf(),
        page_aligned(start),
        in_user_range(start),
        count >= 1,
        in_user_range((start + 4096 * (count - 1)) as u64),
        start + 4096 * count <= u64::MAX,
    ensures
        r == forall|k: int|
            0 <= k < count ==> !mem.user_maps_page(
                mem.active_space(),
                #[trigger] span_page(start, k),
            ),
{
    let mut i: u64 = 0;
    while i < count
        invariant
            mem.wf(),
            page_aligned(start),
            in_user_range(start),
            count >= 1,
            in_user_range((start + 4096 * (count - 1)) as u64),
            start + 4096 * count <= u64::MAX,
            i <= count,
            forall|k: int|
                0 <= k < i ==> !mem.user_maps_page(
                    mem.active_space(),
                    #[trigger] span_page(start, k),
                ),
        decreases count - i,
    {
        let page = start + 4096 * i;
        proof {
            crate::addr::lemma_ranges_disjoint();
            assert(4096 * (i as int) <= 4096 * ((count - 1) as int));
            assert(page == span_page(start, i as int));
            assert(page % 4096 == 0) by (nonlinear_arith)
                requires
                    page == start + 4096 * i,
                    start % 4096 == 0,
            ;
        }
        if mem.translate(page).is_some() {
            return false;
        }
        i += 1;
    }
    true
}

/// The ways preparing a program can fail.
#[derive(Debug, Clone, Copy, PartialEq, Eq, Structural)]
pub enum LoaderError {
    /// The bytes are not a well-formed ELF-64 little-endian image.
    BadImage,
    /// A loadable segment is unreadable, out of the user range, larger in
    /// file than in memory, or overlaps an existing mapping.
    BadSegment,
    /// The frame pool cannot back the segments, stack or table.
    OutOfMemory,
}

/// A prepared program: its owned address space, the entry virtual address,
/// and its owned user heap.
pub struct ApplicationResources {
    /// Handle of the program's address space.
    pub address_space: usize,
    /// The ELF entry point.
    pub entry_point_virt_addr: u64,
    /// The program's user heap.
    pub heap: HeapState,
}

/// Number of usable user stack pages: the window minus the guard page.
pub const USER_STACK_PAGES: u64 = 4095;

/// Maps the user stack: one guard page is skipped at `USER_STACK_START`,
/// then the usable pages are mapped writable and non-executable.
pub fn allocate_stack(mem: &mut Memory) -> (r: Result<(), LoaderError>)
    requires
        old(mem).wf(),
    ensures
        final(mem).wf(),
        final(mem).active_space() == old(mem).active_space(),
        final(mem).kernel_map() == old(mem).kernel_map(),
        final(mem).space_count() == old(mem).space_count(),
        final(mem).kernel_slice() == old(mem).kernel_slice(),
        final(mem).spaces_seq() == old(mem).spaces_seq(),
        final(mem).store_seq() == old(mem).store_seq(),
        final(mem).loaned_frames() == old(mem).loaned_frames(),
        r is Ok ==> final(mem).free_list() == old(mem).free_list().take(
            old(mem).free_list().len() - USER_STACK_PAGES,
        ),
        r is Ok <==> old(mem).free_list().len() >= USER_STACK_PAGES && (forall|k: int|
            0 <= k < USER_STACK_PAGES ==> !old(mem).user_maps_page(
                old(mem).active_space(),
                #[trigger] span_page((USER_STACK_START + 4096) as u64, k),
            )),
        r is Ok ==> final(mem).user_map() == old(mem).user_map() + range_mappings(
            old(mem).active_space(),
            (USER_STACK_START + 4096) as u64,
            USER_STACK_PAGES,
            FLAG_WRITABLE | FLAG_NO_EXECUTE | FLAG_USER_ACCESSIBLE | FLAG_PRESENT,
            old(mem).free_list(),
        ),
        r is Err ==> *final(mem) == *old(mem) && r == Err::<(), LoaderError>(
            if old(mem).free_list().len() < USER_STACK_PAGES {
                LoaderError::OutOfMemory
            } else {
                LoaderError::BadSegment
            },
        ),
{
    proof {
        crate::addr::lemma_ranges_disjoint();
    }
    let base = USER_STACK_START + 4096;
    if mem.free_frame_count() < USER_STACK_PAGES {
        return Err(LoaderError::OutOfMemory);
    }
    if !span_unmapped(mem, base, USER_STACK_PAGES) {
        return Err(LoaderError::BadSegment);
    }
    mem.map_ram_user_range(base, USER_STACK_PAGES, FLAG_WRITABLE | FLAG_NO_EXECUTE);
    Ok(())
}

/// Builds an address space for a parsed program: a fresh top-level table
/// with the shared kernel slice, every loadable segment mapped and
/// downgraded to its final flags, a fresh user heap, and the user stack.
/// Returns with the kernel address space active again; the whole outcome,
/// success and every error alike, is `prepare_result_spec` over the
/// segments' views.
pub fn prepare_from_segments(mem: &mut Memory, entry: u64, segs: &Vec<ElfSegment>) -> (r: Result<
    ApplicationResources,
    LoaderError,
>)
    requires
        old(mem).wf(),
        old(mem).space_count() < usize::MAX - 1,
    ensures
        final(mem).wf(),
        final(mem).active_space() == 0,
        final(mem).kernel_map() == old(mem).kernel_map(),
        final(mem).kernel_slice() == old(mem).kernel_slice(),
        final(mem).store_seq() == old(mem).store_seq(),
        final(mem).loaned_frames() == old(mem).loaned_frames(),
        r != Err::<ApplicationResources, LoaderError>(LoaderError::BadImage),
        prepare_result_spec(*old(mem), *final(mem), r, entry, seg_views(segs@)),
        r matches Ok(res) ==> {
            &&& res.address_space == old(mem).space_count()
            &&& final(mem).space_count() == old(mem).space_count() + 1
            &&& res.entry_point_virt_addr == entry
            &&& res.heap.total_bytes == 0
        },
{
    proof {
        crate::addr::lemma_ranges_disjoint();
    }
    let ghost views = seg_views(segs@);
    if mem.free_frame_count() == 0 {
        mem.switch_to_kernel_page_table();
        return Err(LoaderError::OutOfMemory);
    }
    let h = mem.create_user_page_table();
    mem.switch_to_user_page_table(h);
    let ghost d = (h + 1) as usize;
    let ghost um0 = old(mem).user_map();
    let ghost fl0 = old(mem).free_list().drop_last();
    let mut i: usize = 0;
    while i < segs.len()
        invariant
            mem.wf(),
            i <= segs@.len(),
            views == seg_views(segs@),
            views.len() == segs@.len(),
            mem.active_space() == h + 1,
            d == h + 1,
            h == old(mem).space_count(),
            h < mem.space_count(),
            mem.space_count() == old(mem).space_count() + 1,
            mem.kernel_map() == old(mem).kernel_map(),
            mem.kernel_slice() == old(mem).kernel_slice(),
            mem.store_seq() == old(mem).store_seq(),
            mem.loaned_frames() == old(mem).loaned_frames(),
            mem.spaces_seq()[h as int].slice() == old(mem).kernel_slice(),
            um0 == old(mem).user_map(),
            fl0 == old(mem).free_list().drop_last(),
            old(mem).free_list().len() > 0,
            load_outcome(d, views, i as int, um0, fl0) == Ok::<
                (Seq<Mapping>, Seq<u64>),
                LoaderError,
            >((mem.user_map(), mem.free_list())),
        decreases segs@.len() - i,
    {
        let seg = &segs[i];
        proof {
            assert(views[i as int] == seg_view(segs@[i as int]));
        }
        if seg.p_type == PT_LOAD && seg.memsz > 0 {
            if seg.flags & PF_R == 0 && seg.flags & PF_X == 0 {
                proof {
                    lemma_load_outcome_err(d, views, i + 1, views.len() as int, um0, fl0);
                }
                mem.switch_to_kernel_page_table();
                return Err(LoaderError::BadSegment);
            }
            if seg.data.len() as u64 > seg.memsz {
                proof {
                    lemma_load_outcome_err(d, views, i + 1, views.len() as int, um0, fl0);
                }
                mem.switch_to_kernel_page_table();
                return Err(LoaderError::BadSegment);
            }
            if !(seg.vaddr < crate::addr::USER_END && crate::addr::USER_END - seg.vaddr
                >= seg.memsz) {
                proof {
                    lemma_load_outcome_err(d, views, i + 1, views.len() as int, um0, fl0);
                }
                mem.switch_to_kernel_page_table();
                return Err(LoaderError::BadSegment);
            }
            let start_page = seg.vaddr / 4096 * 4096;
            let last = seg.vaddr + seg.memsz - 1;
            let count = (last / 4096 - seg.vaddr / 4096) + 1;
            proof {
                crate::addr::lemma_ranges_disjoint();
                assert(start_page % 4096 == 0 && start_page <= seg.vaddr && last / 4096 * 4096
                    == start_page + 4096 * (count - 1) && last / 4096 * 4096 <= last)
                    by (nonlinear_arith)
                    requires
                        start_page == seg.vaddr / 4096 * 4096,
                        count == (last / 4096 - seg.vaddr / 4096) + 1,
                        seg.vaddr <= last,
                ;
                assert(start_page == cover_start(seg.vaddr));
                assert(count == cover_count(seg.vaddr, seg.memsz));
                assert(last < crate::addr::USER_END);
                assert(in_user_range(start_page));
                assert(in_user_range((start_page + 4096 * (count - 1)) as u64));
                assert(start_page + 4096 * count <= u64::MAX);
            }
            if mem.free_frame_count() < count {
                proof {
                    lemma_load_outcome_err(d, views, i + 1, views.len() as int, um0, fl0);
                }
                mem.switch_to_kernel_page_table();
                return Err(LoaderError::OutOfMemory);
            }
            if !span_unmapped(mem, start_page, count) {
                proof {
                    let ghost kk = choose|k: int|
                        0 <= k < count && mem.user_maps_page(
                            mem.active_space(),
                            #[trigger] span_page(start_page, k),
                        );
                    assert(seq_maps_page(mem.user_map(), d, span_page(start_page, kk)));
                    assert(!span_free(mem.user_map(), d, start_page, count));
                    lemma_load_outcome_err(d, views, i + 1, views.len() as int, um0, fl0);
                }
                mem.switch_to_kernel_page_table();
                return Err(LoaderError::BadSegment);
            }
            proof {
                assert forall|k: int|
                    0 <= k < count implies !seq_maps_page(
                    mem.user_map(),
                    d,
                    #[trigger] span_page(start_page, k),
                ) by {
                    assert(!mem.user_maps_page(d, span_page(start_page, k)));
                }
                assert(span_free(mem.user_map(), d, start_page, count));
            }
            let flags = compute_segment_flags(seg.flags);
            map_segment(mem, seg.vaddr, seg.memsz, flags);
        }
        i += 1;
    }
    proof {
        assert(load_outcome(d, views, views.len() as int, um0, fl0) == Ok::<
            (Seq<Mapping>, Seq<u64>),
            LoaderError,
        >((mem.user_map(), mem.free_list())));
    }
    let heap = create_user_heap();
    let ghost before_stack = *mem;
    let stack = allocate_stack(mem);
    proof {
        let ghost base = (USER_STACK_START + 4096) as u64;
        assert forall|k: int|
            0 <= k < USER_STACK_PAGES implies (before_stack.user_maps_page(
            d,
            #[trigger] span_page(base, k),
        ) == seq_maps_page(before_stack.user_map(), d, span_page(base, k))) by {
        }
    }
    if stack.is_err() {
        mem.switch_to_kernel_page_table();
        return Err(
            match stack {
                Err(e) => e,
                Ok(_) => LoaderError::OutOfMemory,
            },
        );
    }
    mem.switch_to_kernel_page_table();
    Ok(ApplicationResources { address_space: h, entry_point_virt_addr: entry, heap })
}

/// Parses the bytes as a little-endian ELF-64 image and prepares an
/// address space from it: `BadImage` exactly when the parse fails, and
/// otherwise the outcome of `prepare_from_segments` over the parsed entry
/// point and segments.
pub fn prepare_application(mem: &mut Memory, file: &[u8]) -> (r: Result<
    ApplicationResources,
    LoaderError,
>)
    requires
        old(mem).wf(),
        old(mem).space_count() < usize::MAX - 1,
    ensures
        final(mem).wf(),
        final(mem).active_space() == 0,
        final(mem).kernel_map() == old(mem).kernel_map(),
        final(mem).kernel_slice() == old(mem).kernel_slice(),
        final(mem).store_seq() == old(mem).store_seq(),
        final(mem).loaned_frames() == old(mem).loaned_frames(),
        r == Err::<ApplicationResources, LoaderError>(LoaderError::BadImage) <==> elf_parse_of(
            file@,
        ) is None,
        elf_parse_of(file@) matches Some(p) ==> prepare_result_spec(
            *old(mem),
            *final(mem),
            r,
            p.0,
            p.1,
        ),
        r matches Ok(res) ==> {
            &&& res.address_space == old(mem).space_count()
            &&& final(mem).space_count() == old(mem).space_count() + 1
            &&& res.heap.total_bytes == 0
        },
{
    match parse_elf(file) {
        None => {
            mem.switch_to_kernel_page_table();
            Err(LoaderError::BadImage)
        },
        Some((entry, segs)) => prepare_from_segments(mem, entry, &segs),
    }
}

/// Releases a prepared program's resources: the program's address space
/// is reactivated, where a fuller implementation would return its user
/// frames to the pool, and the kernel address space is restored. The
/// space's mappings keep their frames - reclaiming them is left open in
/// the design - and the owned heap is dropped with the resources.
pub fn free_application(mem: &mut Memory, resources: ApplicationResources)
    requires
        old(mem).wf(),
        resources.address_space < old(mem).space_count(),
    ensures
        final(mem).wf(),
        final(mem).active_space() == 0,
        final(mem).kernel_map() == old(mem).kernel_map(),
        final(mem).user_map() == old(mem).user_map(),
        final(mem).free_list() == old(mem).free_list(),
        final(mem).spaces_seq() == old(mem).spaces_seq(),
        final(mem).store_seq() == old(mem).store_seq(),
        final(mem).loaned_frames() == old(mem).loaned_frames(),
{
    mem.switch_to_user_page_table(resources.address_space);
    mem.switch_to_kernel_page_table();
}

/// The user stack pointer handed to the program on entry: near the top of
/// the stack window, leaving a small scratch area.
pub fn user_entry_rsp() -> (r: u64)
    ensures
        r == USER_STACK_START + USER_STACK_SIZE - 1024,
{
    proof {
        crate::addr::lemma_ranges_disjoint();
    }
    USER_STACK_START + USER_STACK_SIZE - 1024
}

/// What installing the running-program record does to the core-local data.
pub open spec fn begin_run_rel(
    pre: CoreLocalData,
    post: CoreLocalData,
    resources_id: usize,
    kernel_rsp: u64,
    abort_addr: u64,
) -> bool {
    post == (CoreLocalData {
        running_application_data: Some(
            RunningApplicationCLD {
                application_resources: resources_id,
                abort_addr,
                saved_stack_pointer: kernel_rsp,
            },
        ),
        ..pre
    })
}

/// What clearing the running-program record does to the core-local data.
pub open spec fn finish_run_rel(pre: CoreLocalData, post: CoreLocalData) -> bool {
    post == (CoreLocalData { running_application_data: None, ..pre })
}

/// Installs the running-program record before the stack pivot.
pub fn begin_run(cld: &mut CoreLocalData, resources_id: usize, kernel_rsp: u64, abort_addr: u64)
    ensures
        begin_run_rel(*old(cld), *final(cld), resources_id, kernel_rsp, abort_addr),
{
    cld.running_application_data = Some(
        RunningApplicationCLD {
            application_resources: resources_id,
            abort_addr,
            saved_stack_pointer: kernel_rsp,
        },
    );
}

/// Clears the running-program record after the program returned or
/// aborted.
pub fn finish_run(cld: &mut CoreLocalData)
    ensures
        finish_run_rel(*old(cld), *final(cld)),
{
    cld.running_application_data = None;
}

/// Runs a prepared program: switches to its address space, installs the
/// running-program record with the saved kernel stack pointer and the abort
/// re-entry address, lets the program execute (the stack pivot and the
/// user code are machine-level and outside the library; the exit code the
/// program produced is handed in), clears the record, and switches back to
/// the kernel address space.
pub fn run(
    mem: &mut Memory,
    cld: &mut CoreLocalData,
    resources: &ApplicationResources,
    kernel_rsp: u64,
    abort_addr: u64,
    exit_code: u64,
) -> (r: u64)
    requires
        old(mem).wf(),
        resources.address_space < old(mem).space_count(),
    ensures
        r == exit_code,
        final(cld).running_application_data is None,
        final(cld).cpu_index == old(cld).cpu_index,
        final(cld).apic_timer_ticks_per_second == old(cld).apic_timer_ticks_per_second,
        final(cld).apic_timer_interrupt_function == old(cld).apic_timer_interrupt_function,
        final(mem).wf(),
        final(mem).active_space() == 0,
        final(mem).kernel_map() == old(mem).kernel_map(),
        final(mem).user_map() == old(mem).user_map(),
        final(mem).free_list() == old(mem).free_list(),
        final(mem).spaces_seq() == old(mem).spaces_seq(),
        final(mem).kernel_slice() == old(mem).kernel_slice(),
        final(mem).store_seq() == old(mem).store_seq(),
        final(mem).loaned_frames() == old(mem).loaned_frames(),
        final(mem).total() == old(mem).total(),
{
    mem.switch_to_user_page_table(resources.address_space);
    begin_run(cld, resources.address_space, kernel_rsp, abort_addr);
    finish_run(cld);
    mem.switch_to_kernel_page_table();
    exit_code
}

/// The jump target and saved kernel stack pointer for an abort: the
/// machine-level transfer itself lives outside the library, and may only
/// happen while a running-program record is installed.
pub fn abort(cld: &CoreLocalData) -> (r: (u64, u64))
    requires
        cld.running_application_data is Some,
    ensures
        r.0 == cld.running_application_data->Some_0.abort_addr,
        r.1 == cld.running_application_data->Some_0.saved_stack_pointer,
{
    match &cld.running_application_data {
        Some(rec) => (rec.abort_addr, rec.saved_stack_pointer),
        None => vstd::pervasive::unreached(),
    }
}

/// Running the same prepared program twice on the same core, with no
/// intervening preparation, installs identical records - in particular
/// identical saved kernel stack pointers - and leaves the running-program
/// record cleared after each return. That the machine hands `run` the
/// same kernel stack pointer on re-entry is the hardware calling
/// convention, outside the model; the law takes it as the shared input.
pub proof fn lemma_run_idempotent(
    c0: CoreLocalData,
    c1: CoreLocalData,
    c2: CoreLocalData,
    c3: CoreLocalData,
    c4: CoreLocalData,
    resources_id: usize,
    kernel_rsp: u64,
    abort_addr: u64,
)
    requires
        begin_run_rel(c0, c1, resources_id, kernel_rsp, abort_addr),
        finish_run_rel(c1, c2),
        begin_run_rel(c2, c3, resources_id, kernel_rsp, abort_addr),
        finish_run_rel(c3, c4),
    ensures
        c1.running_application_data == c3.running_application_data,
        c1.running_application_data->Some_0.saved_stack_pointer
            == c3.running_application_data->Some_0.saved_stack_pointer,
        c2.running_application_data is None,
        c4.running_application_data is None,
{
}

} // verus!
