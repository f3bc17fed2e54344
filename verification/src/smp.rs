//! SMP bring-up.
//!
//! The BSP reserves a guard page plus a kernel stack per application
//! processor, patches well-known offsets of the real-mode trampoline blob,
//! maps the trampoline at physical and virtual address zero, and wakes the
//! APs with an INIT and two STARTUP inter-processor interrupts separated by
//! PIT delays. Each AP draws an index from a shared counter, picks its
//! stack, and checks in; all cores then meet at a barrier sized
//! `ap_count + 1`.

use vstd::prelude::*;

use crate::addr::{in_kernel_range, KERNEL_AP_STACKS, KERNEL_END, KERNEL_STACK_SIZE};
use crate::apic::{create_send_init_cmd, create_startup_cmd, Apic, Offset};
use crate::paging::{span_page, Memory, FLAG_NO_EXECUTE, FLAG_PRESENT, FLAG_USER_ACCESSIBLE,
    FLAG_WRITABLE};
use crate::percore::{CoreLocalData, CoreRegistry};
use crate::pit::Pit;

verus! {

/// Trampoline patch offset of the top-level page table's physical address.
pub const PATCH_L4_TABLE: u64 = 0x0a00;
/// Trampoline patch offset of the shared atomic AP-index counter's address.
pub const PATCH_CORE_COUNTER: u64 = 0x0b00;
/// Trampoline patch offset of the per-AP stack stride.
pub const PATCH_STACK_STRIDE: u64 = 0x0b10;
/// Trampoline patch offset of the AP stack base address.
pub const PATCH_STACK_BASE: u64 = 0x0b20;
/// Trampoline patch offset of the AP entry function's address.
pub const PATCH_ENTRY_FUNCTION: u64 = 0x0b30;

/// Kernel stack pages per core.
pub const STACK_PAGES_PER_CORE: u64 = 1024;

/// Virtual-address distance between two APs' stack slots: the stack pages
/// plus one guard page.
pub const AP_STACK_STRIDE: u64 = 4096 * (1024 + 1);

/// Virtual-address distance between two APs' stack tops: the stack pages
/// plus one guard page.
pub fn calc_stack_stride() -> (r: u64)
    ensures
        r == (KERNEL_STACK_SIZE / 4096 + 1) * 4096,
        r == AP_STACK_STRIDE,
{
    let pages_per_core = KERNEL_STACK_SIZE / 4096;
    (pages_per_core + 1) * 4096
}

/// The lowest stack page of AP `c`: its stride slot in the AP-stack
/// window, after the guard page.
pub open spec fn stack_base(c: int) -> u64 {
    (KERNEL_AP_STACKS + c * AP_STACK_STRIDE + 4096) as u64
}

/// Reserves, inside the kernel AP-stack window, one guard page plus
/// `KERNEL_STACK_SIZE` of freshly mapped RAM per application processor:
/// mapping `j` of the added ones is page `(j % 1024)` of the stack of AP
/// `j / 1024`.
pub fn allocate_stacks(mem: &mut Memory, ap_count: u64)
    requires
        old(mem).wf(),
        ap_count * AP_STACK_STRIDE <= KERNEL_END - KERNEL_AP_STACKS,
        old(mem).free_list().len() >= ap_count * STACK_PAGES_PER_CORE,
        forall|p: u64|
            KERNEL_AP_STACKS <= p < KERNEL_END ==> !old(mem).kernel_maps_page(p),
    ensures
        final(mem).wf(),
        final(mem).active_space() == old(mem).active_space(),
        final(mem).user_map() == old(mem).user_map(),
        final(mem).space_count() == old(mem).space_count(),
        final(mem).kernel_map().len() == old(mem).kernel_map().len() + ap_count
            * STACK_PAGES_PER_CORE,
        forall|j: int|
            0 <= j < old(mem).kernel_map().len() ==> #[trigger] final(mem).kernel_map()[j] == old(
                mem,
            ).kernel_map()[j],
        forall|j: int|
            old(mem).kernel_map().len() <= j < final(mem).kernel_map().len() ==> {
                let o = j - old(mem).kernel_map().len();
                (#[trigger] final(mem).kernel_map()[j]).page == span_page(
                    stack_base(o / (STACK_PAGES_PER_CORE as int)),
                    o % (STACK_PAGES_PER_CORE as int),
                ) && final(mem).kernel_map()[j].ram
            },
{
    proof {
        crate::addr::lemma_ranges_disjoint();
    }
    let stride = calc_stack_stride();
    let ghost pre = *old(mem);
    let mut c: u64 = 0;
    while c < ap_count
        invariant
            mem.wf(),
            pre.wf(),
            c <= ap_count,
            stride == AP_STACK_STRIDE,
            ap_count * AP_STACK_STRIDE <= KERNEL_END - KERNEL_AP_STACKS,
            pre.free_list().len() >= ap_count * STACK_PAGES_PER_CORE,
            mem.free_list().len() >= (ap_count - c) * STACK_PAGES_PER_CORE,
            forall|p: u64|
                KERNEL_AP_STACKS <= p < KERNEL_END ==> !pre.kernel_maps_page(p),
            mem.active_space() == pre.active_space(),
            mem.user_map() == pre.user_map(),
            mem.space_count() == pre.space_count(),
            mem.kernel_map().len() == pre.kernel_map().len() + c * STACK_PAGES_PER_CORE,
            forall|j: int|
                0 <= j < pre.kernel_map().len() ==> #[trigger] mem.kernel_map()[j]
                    == pre.kernel_map()[j],
            forall|j: int|
                pre.kernel_map().len() <= j < mem.kernel_map().len() ==> {
                    let o = j - pre.kernel_map().len();
                    (#[trigger] mem.kernel_map()[j]).page == span_page(
                        stack_base(o / (STACK_PAGES_PER_CORE as int)),
                        o % (STACK_PAGES_PER_CORE as int),
                    ) && mem.kernel_map()[j].ram && KERNEL_AP_STACKS <= mem.kernel_map()[j].page
                        < KERNEL_AP_STACKS + c * AP_STACK_STRIDE
                },
        decreases ap_count - c,
    {
        proof {
            crate::addr::lemma_ranges_disjoint();
            assert((c + 1) * AP_STACK_STRIDE <= ap_count * AP_STACK_STRIDE && c * AP_STACK_STRIDE
                + AP_STACK_STRIDE == (c + 1) * AP_STACK_STRIDE && (ap_count - c)
                * STACK_PAGES_PER_CORE == (ap_count - c - 1) * STACK_PAGES_PER_CORE
                + STACK_PAGES_PER_CORE) by (nonlinear_arith)
                requires
                    0 <= c < ap_count,
            ;
        }
        let base = KERNEL_AP_STACKS + c * stride + 4096;
        proof {
            assert(base == stack_base(c as int));
            assert(base % 4096 == 0) by (nonlinear_arith)
                requires
                    base == KERNEL_AP_STACKS + c * AP_STACK_STRIDE + 4096,
                    KERNEL_AP_STACKS % 4096 == 0,
                    AP_STACK_STRIDE % 4096 == 0,
            ;
            assert(in_kernel_range(base));
            assert(in_kernel_range((base + 4096 * (STACK_PAGES_PER_CORE - 1)) as u64));
            assert forall|k: int|
                0 <= k < STACK_PAGES_PER_CORE implies !mem.kernel_maps_page(
                #[trigger] span_page(base, k),
            ) by {
                let p = span_page(base, k);
                assert(KERNEL_AP_STACKS + c * AP_STACK_STRIDE < p < KERNEL_END);
                if mem.kernel_maps_page(p) {
                    let j = choose|j: int|
                        0 <= j < mem.kernel_map().len() && (#[trigger] mem.kernel_map()[j]).page
                            == p;
                    if j < pre.kernel_map().len() {
                        assert(pre.kernel_map()[j].page == p);
                        assert(pre.kernel_maps_page(p));
                        assert(false);
                    } else {
                        assert(mem.kernel_map()[j].page < KERNEL_AP_STACKS + c * AP_STACK_STRIDE);
                        assert(false);
                    }
                }
            }
        }
        proof {
            assert((FLAG_WRITABLE | FLAG_NO_EXECUTE) & FLAG_USER_ACCESSIBLE == 0) by (bit_vector);
        }
        let ghost snap = *mem;
        mem.map_ram_kernel_range(base, STACK_PAGES_PER_CORE, FLAG_WRITABLE | FLAG_NO_EXECUTE);
        proof {
            assert forall|j: int|
                pre.kernel_map().len() <= j < mem.kernel_map().len() implies {
                let o = j - pre.kernel_map().len();
                (#[trigger] mem.kernel_map()[j]).page == span_page(
                    stack_base(o / (STACK_PAGES_PER_CORE as int)),
                    o % (STACK_PAGES_PER_CORE as int),
                ) && mem.kernel_map()[j].ram && KERNEL_AP_STACKS <= mem.kernel_map()[j].page
                    < KERNEL_AP_STACKS + (c + 1) * AP_STACK_STRIDE
            } by {
                let o = j - pre.kernel_map().len();
                if j < snap.kernel_map().len() {
                    assert(mem.kernel_map()[j] == snap.kernel_map()[j]);
                    assert(KERNEL_AP_STACKS <= mem.kernel_map()[j].page < KERNEL_AP_STACKS + c
                        * AP_STACK_STRIDE);
                } else {
                    let k = j - snap.kernel_map().len();
                    assert(mem.kernel_map()[j] == crate::paging::range_mappings(
                        0,
                        base,
                        STACK_PAGES_PER_CORE,
                        FLAG_WRITABLE | FLAG_NO_EXECUTE | FLAG_PRESENT,
                        snap.free_list(),
                    )[k]);
                    assert(mem.kernel_map()[j].page == span_page(base, k));
                    assert(o == c * STACK_PAGES_PER_CORE + k);
                    assert(o / (STACK_PAGES_PER_CORE as int) == c && o % (
                    STACK_PAGES_PER_CORE as int) == k) by (nonlinear_arith)
                        requires
                            o == c * STACK_PAGES_PER_CORE + k,
                            0 <= k < STACK_PAGES_PER_CORE,
                            0 <= c,
                    ;
                }
            }
        }
        c += 1;
    }
    proof {
        assert(mem.kernel_map().len() == pre.kernel_map().len() + ap_count * STACK_PAGES_PER_CORE);
    }
}

/// The five trampoline patches: each well-known offset of the real-mode
/// blob and the value the BSP writes there before copying it to physical
/// zero. The top-level table's physical address must be reachable from
/// 32-bit real-mode code.
pub fn trampoline_patches(
    l4_table_phys: u64,
    core_counter_addr: u64,
    stack_stride: u64,
    stack_base_addr: u64,
    entry_function_addr: u64,
) -> (r: Vec<(u64, u64)>)
    requires
        l4_table_phys < 0xffff_ffff,
    ensures
        r@ =~= seq![
            (PATCH_L4_TABLE, l4_table_phys),
            (PATCH_CORE_COUNTER, core_counter_addr),
            (PATCH_STACK_STRIDE, stack_stride),
            (PATCH_STACK_BASE, stack_base_addr),
            (PATCH_ENTRY_FUNCTION, entry_function_addr),
        ],
{
    let mut r: Vec<(u64, u64)> = Vec::new();
    r.push((PATCH_L4_TABLE, l4_table_phys));
    r.push((PATCH_CORE_COUNTER, core_counter_addr));
    r.push((PATCH_STACK_STRIDE, stack_stride));
    r.push((PATCH_STACK_BASE, stack_base_addr));
    r.push((PATCH_ENTRY_FUNCTION, entry_function_addr));
    r
}

/// Wakes the application processors: an INIT inter-processor interrupt to
/// everyone but self, a 10 ms delay, then two STARTUP interrupts with
/// trampoline page zero, 200 microseconds apart.
pub fn startup_aps(apic: &mut Apic, pit: &mut Pit)
    requires
        old(apic).wf(),
    ensures
        final(apic).wf(),
        final(apic).reg(Offset::InterruptCommandLow) == 0xc4600u32,
        final(apic).reg(Offset::InterruptCommandHigh) == 0u32,
        final(pit).reload() == crate::pit::spec_counter(200),
{
    let init_cmd = create_send_init_cmd();
    let startup_cmd = create_startup_cmd(0);
    apic.write_interrupt_command(init_cmd);
    let r1 = pit.delay(10_000);
    apic.write_interrupt_command(startup_cmd);
    let r2 = pit.delay(200);
    apic.write_interrupt_command(startup_cmd);
    proof {
        assert((0xc4600u64 | 0u64) == 0xc4600u64 && ((0xc4600u64 | 0u64) & 0xffff_ffffu64) as u32
            == 0xc4600u32 && (((0xc4600u64 | 0u64) >> 32) as u32) == 0u32) by (bit_vector);
        assert(crate::pit::spec_counter(10_000) <= 0xffff && crate::pit::spec_counter(200)
            <= 0xffff);
    }
}

/// Draws the next AP index from the shared bring-up counter.
pub fn next_ap_index(counter: &mut u64) -> (r: u64)
    requires
        *old(counter) < u64::MAX,
    ensures
        r == *old(counter),
        *final(counter) == *old(counter) + 1,
{
    let r = *counter;
    *counter = *counter + 1;
    r
}

/// Whether the BSP should keep spinning for AP check-ins: processors are
/// still missing and the bounded timeout has not run out.
pub fn startup_wait_keep_spinning(done: u64, ap_count: u64, time_out: u64) -> (r: bool)
    ensures
        r == (done < ap_count && time_out > 0),
{
    done < ap_count && time_out > 0
}

/// Brings the application processors up, apart from the spin on their
/// check-in counter: maps the trampoline page at virtual and physical
/// zero, reserves the per-AP stacks, computes the trampoline patches, and
/// sends the INIT and STARTUP interrupts. The returned patches are what
/// the surrounding runtime writes into the trampoline blob, together with
/// the blob itself, before the APs fetch it; spinning on the check-in
/// counter and the final unmap follow in `init_smp_finish`.
pub fn init_smp(
    mem: &mut Memory,
    apic: &mut Apic,
    pit: &mut Pit,
    ap_count: u64,
    l4_table_phys: u64,
    core_counter_addr: u64,
    entry_function_addr: u64,
) -> (r: Vec<(u64, u64)>)
    requires
        old(mem).wf(),
        old(apic).wf(),
        old(mem).active_space() == 0,
        l4_table_phys < 0xffff_ffff,
        ap_count * AP_STACK_STRIDE <= KERNEL_END - KERNEL_AP_STACKS,
        old(mem).free_list().len() >= ap_count * STACK_PAGES_PER_CORE,
        forall|p: u64| KERNEL_AP_STACKS <= p < KERNEL_END ==> !old(mem).kernel_maps_page(p),
        !old(mem).user_maps_page(0, 0),
        !old(mem).frame_owned(0),
        !old(mem).free_list().contains(0),
    ensures
        final(mem).wf(),
        final(mem).active_space() == 0,
        final(mem).user_maps_page(0, 0),
        final(mem).kernel_map().len() == old(mem).kernel_map().len() + ap_count
            * STACK_PAGES_PER_CORE,
        final(apic).wf(),
        final(apic).reg(Offset::InterruptCommandLow) == 0xc4600u32,
        r@ =~= seq![
            (PATCH_L4_TABLE, l4_table_phys),
            (PATCH_CORE_COUNTER, core_counter_addr),
            (PATCH_STACK_STRIDE, AP_STACK_STRIDE),
            (PATCH_STACK_BASE, (KERNEL_AP_STACKS + AP_STACK_STRIDE - 1) as u64),
            (PATCH_ENTRY_FUNCTION, entry_function_addr),
        ],
{
    proof {
        crate::addr::lemma_ranges_disjoint();
        assert(crate::addr::in_user_range(0));
    }
    mem.map_frame(0, crate::paging::FLAG_PRESENT | FLAG_WRITABLE, 0);
    let ghost m1 = *mem;
    proof {
        assert(m1.user_map().last().domain == 0 && m1.user_map().last().page == 0);
        assert forall|p: u64|
            KERNEL_AP_STACKS <= p < KERNEL_END implies !mem.kernel_maps_page(p) by {
            if mem.kernel_maps_page(p) {
                let j = choose|j: int|
                    0 <= j < mem.kernel_map().len() && (#[trigger] mem.kernel_map()[j]).page == p;
                assert(old(mem).kernel_map()[j].page == p);
                assert(old(mem).kernel_maps_page(p));
                assert(false);
            }
        }
    }
    allocate_stacks(mem, ap_count);
    let stack_stride = calc_stack_stride();
    let stack_base_addr = KERNEL_AP_STACKS + stack_stride - 1;
    let patches = trampoline_patches(
        l4_table_phys,
        core_counter_addr,
        stack_stride,
        stack_base_addr,
        entry_function_addr,
    );
    startup_aps(apic, pit);
    proof {
        let ghost j = m1.user_map().len() - 1;
        assert(mem.user_map()[j].domain == 0 && mem.user_map()[j].page == 0);
        assert(mem.user_maps_page(0, 0));
    }
    patches
}

/// Finishes the bring-up after every application processor has checked
/// in: the trampoline page leaves the address space; its frame at
/// physical zero was never pool RAM and is not freed.
pub fn init_smp_finish(mem: &mut Memory)
    requires
        old(mem).wf(),
        old(mem).active_space() == 0,
        old(mem).user_maps_page(0, 0),
    ensures
        final(mem).wf(),
        !final(mem).user_maps_page(0, 0),
        final(mem).free_list() == old(mem).free_list(),
{
    proof {
        crate::addr::lemma_ranges_disjoint();
        assert(crate::addr::in_user_range(0));
    }
    let frame = mem.unmap(0);
    proof {
        crate::paging::lemma_unmap_user_clears(*old(mem), *mem, 0, frame);
    }
}

/// The spurious-interrupt vector value that enables the APIC and disables
/// focus-processor checking.
pub const SPURIOUS_ENABLE: u32 = 0x11ff;

/// What each application processor runs after the trampoline: it checks
/// in on the shared counter, installs its per-core data keyed by its APIC
/// id with `cpu_index = ap_index + 1`, initializes its APIC (task
/// priority zero, spurious vector enabled, timer calibrated from the PIT
/// measurement handed in), stores the calibrated rate, and meets the
/// others at the barrier. Descriptor-table setup and the interrupt-enable
/// flag are processor state outside the library.
pub fn ap_entry(
    registry: &mut CoreRegistry,
    apic: &mut Apic,
    barrier: &mut Barrier,
    startup_done: &mut u64,
    ap_index: u64,
    calibration_count: u32,
) -> (leader: bool)
    requires
        old(registry).wf(),
        old(apic).wf(),
        old(barrier).arrived() < old(barrier).width(),
        old(barrier).generation() < u64::MAX,
        *old(startup_done) < u64::MAX,
        ap_index < u64::MAX,
        calibration_count < 0xffff_ffff,
    ensures
        final(registry).wf(),
        final(apic).wf(),
        *final(startup_done) == *old(startup_done) + 1,
        wait_rel(*old(barrier), *final(barrier), leader),
        final(apic).reg(Offset::TaskPriority) == 0u32,
        final(apic).reg(Offset::SpuriousInterruptVector) == SPURIOUS_ENABLE,
        old(registry).slots_seq()[(old(apic).reg(Offset::Id) >> 24) as u8 as int] is None ==> {
            let slot = final(registry).slots_seq()[(old(apic).reg(Offset::Id) >> 24) as u8 as int];
            &&& slot is Some
            &&& slot->Some_0.cpu_index == ap_index + 1
            &&& slot->Some_0.apic_timer_ticks_per_second == Some(
                ((0xffff_ffffu64 - calibration_count) * 20) as u64,
            )
        },
{
    *startup_done = *startup_done + 1;
    let apic_id = apic.id();
    registry.initialize_own_core_local_data(apic_id, CoreLocalData::new(ap_index + 1));
    apic.write(Offset::TaskPriority, 0);
    apic.write(Offset::SpuriousInterruptVector, SPURIOUS_ENABLE);
    let tps = apic.init_timer(calibration_count);
    let cld = registry.get_cld(apic_id);
    cld.apic_timer_ticks_per_second = Some(tps);
    sync_cores_barrier(barrier)
}

/// The one-time synchronization barrier, sized `ap_count + 1`: each core
/// arrives once per round; the core that completes a round is its leader
/// and the barrier resets for the next round.
pub struct Barrier {
    width: u64,
    arrived: u64,
    generation: u64,
}

impl Barrier {
    /// How many cores one round gathers.
    pub closed spec fn width(self) -> u64 {
        self.width
    }

    /// How many cores have arrived in the current round.
    pub closed spec fn arrived(self) -> u64 {
        self.arrived
    }

    /// How many rounds have completed.
    pub closed spec fn generation(self) -> u64 {
        self.generation
    }

    /// A fresh barrier gathering `width` cores per round.
    pub fn new(width: u64) -> (r: Self)
        requires
            width >= 1,
        ensures
            r.width() == width,
            r.arrived() == 0,
            r.generation() == 0,
    {
        Barrier { width, arrived: 0, generation: 0 }
    }

    /// One core arrives; the arrival that completes the round is the
    /// leader, and the round resets.
    pub fn wait(&mut self) -> (leader: bool)
        requires
            old(self).arrived() < old(self).width(),
            old(self).generation() < u64::MAX,
        ensures
            wait_rel(*old(self), *final(self), leader),
    {
        self.arrived = self.arrived + 1;
        if self.arrived == self.width {
            self.arrived = 0;
            self.generation = self.generation + 1;
            true
        } else {
            false
        }
    }
}

/// What one arrival at the barrier does: the count grows until the last
/// core of the round arrives, which observes the leader flag and resets
/// the round.
pub open spec fn wait_rel(pre: Barrier, post: Barrier, leader: bool) -> bool {
    &&& post.width() == pre.width()
    &&& if pre.arrived() + 1 == pre.width() {
        leader && post.arrived() == 0 && post.generation() == pre.generation() + 1
    } else {
        !leader && post.arrived() == pre.arrived() + 1 && post.generation() == pre.generation()
    }
}

/// Arrives at the shared startup barrier, reporting whether this core led
/// the round.
pub fn sync_cores_barrier(barrier: &mut Barrier) -> (leader: bool)
    requires
        old(barrier).arrived() < old(barrier).width(),
        old(barrier).generation() < u64::MAX,
    ensures
        wait_rel(*old(barrier), *final(barrier), leader),
{
    barrier.wait()
}

/// In a full round of `width` arrivals from a fresh barrier, every core
/// proceeds past the barrier and exactly one - the last to arrive -
/// observes the leader flag.
pub proof fn lemma_barrier_round(width: u64, states: Seq<Barrier>, leaders: Seq<bool>)
    requires
        width >= 1,
        states.len() == width + 1,
        leaders.len() == width,
        states[0].arrived() == 0,
        states[0].width() == width,
        forall|i: int|
            0 <= i < width ==> wait_rel(#[trigger] states[i], states[i + 1], leaders[i]),
    ensures
        forall|i: int| 0 <= i < width ==> (leaders[i] <==> i == width - 1),
{
    assert forall|i: int| 0 <= i < width implies (#[trigger] leaders[i] <==> i == width - 1) by {
        lemma_barrier_chain(width, states, leaders, i);
        assert(wait_rel(states[i], states[i + 1], leaders[i]));
    }
}

proof fn lemma_barrier_chain(width: u64, states: Seq<Barrier>, leaders: Seq<bool>, i: int)
    requires
        width >= 1,
        states.len() == width + 1,
        leaders.len() == width,
        states[0].arrived() == 0,
        states[0].width() == width,
        forall|j: int|
            0 <= j < width ==> wait_rel(#[trigger] states[j], states[j + 1], leaders[j]),
        0 <= i <= width - 1,
    ensures
        states[i].arrived() == i,
        states[i].width() == width,
    decreases i,
{
    if i > 0 {
        lemma_barrier_chain(width, states, leaders, i - 1);
        assert(wait_rel(states[i - 1], states[i], leaders[i - 1]));
    }
}

} // verus!
