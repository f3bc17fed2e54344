//! Per-core local data.
//!
//! A fixed array of optional slots, indexed by APIC id. Each slot is
//! write-once: a core installs its own data during bring-up and later
//! reads and mutates only its own slot, a caller discipline enforced by
//! convention rather than by types.

use vstd::prelude::*;

use crate::addr::MAX_CORES;

verus! {

/// The bookkeeping `run` installs while a user program executes on this
/// core: which resources it runs from, the saved re-entry address for
/// `abort`, and the saved kernel stack pointer.
#[derive(Clone, Copy, PartialEq, Eq, Structural)]
pub struct RunningApplicationCLD {
    /// Handle of the `ApplicationResources` the program runs from.
    pub application_resources: usize,
    /// The re-entry address `abort` jumps through.
    pub abort_addr: u64,
    /// The kernel stack pointer to restore on return or abort.
    pub saved_stack_pointer: u64,
}

/// One core's local data.
#[derive(Clone, Copy, PartialEq, Eq, Structural)]
pub struct CoreLocalData {
    /// The record of the running user program, present only while one runs.
    pub running_application_data: Option<RunningApplicationCLD>,
    /// This core's index: 0 for the BSP, AP index + 1 for each AP.
    pub cpu_index: u64,
    /// Calibrated APIC timer rate, set once by `init_timer`; never zero.
    pub apic_timer_ticks_per_second: Option<u64>,
    /// Token of the installed timer callback, dispatched by the timer
    /// interrupt handler.
    pub apic_timer_interrupt_function: Option<u64>,
}

impl CoreLocalData {
    /// A fresh slot for the core with the given index.
    pub fn new(cpu_index: u64) -> (r: Self)
        ensures
            r.cpu_index == cpu_index,
            r.running_application_data is None,
            r.apic_timer_ticks_per_second is None,
            r.apic_timer_interrupt_function is None,
    {
        CoreLocalData {
            running_application_data: None,
            cpu_index,
            apic_timer_ticks_per_second: None,
            apic_timer_interrupt_function: None,
        }
    }
}

/// The per-core table: one write-once slot per possible APIC id.
pub struct CoreRegistry {
    slots: Vec<Option<CoreLocalData>>,
}

impl CoreRegistry {
    /// The slots, indexed by APIC id.
    pub closed spec fn slots_seq(self) -> Seq<Option<CoreLocalData>> {
        self.slots@
    }

    /// Well-formedness: one slot per possible core.
    pub open spec fn wf(self) -> bool {
        self.slots_seq().len() == MAX_CORES
    }

    /// An empty table.
    pub fn new() -> (r: Self)
        ensures
            r.wf(),
            forall|i: int| 0 <= i < MAX_CORES ==> r.slots_seq()[i] is None,
    {
        let mut slots: Vec<Option<CoreLocalData>> = Vec::new();
        let mut i: usize = 0;
        while i < 256
            invariant
                i <= 256,
                slots@.len() == i,
                forall|j: int| 0 <= j < i ==> slots@[j] is None,
            decreases 256 - i,
        {
            slots.push(None);
            i += 1;
        }
        CoreRegistry { slots }
    }

    /// Installs this core's data, once: a second call for the same APIC id
    /// leaves the existing data in place, as a write-once cell does.
    pub fn initialize_own_core_local_data(&mut self, apic_id: u8, data: CoreLocalData)
        requires
            old(self).wf(),
        ensures
            final(self).wf(),
            final(self).slots_seq() == if old(self).slots_seq()[apic_id as int] is None {
                old(self).slots_seq().update(apic_id as int, Some(data))
            } else {
                old(self).slots_seq()
            },
    {
        let i = apic_id as usize;
        if self.slots[i].is_none() {
            self.slots[i] = Some(data);
        } else {
            proof {
                assert(self.slots@ =~= old(self).slots@);
            }
        }
    }

    /// Exclusive access to this core's slot; the slot must be initialized.
    pub fn get_cld(&mut self, apic_id: u8) -> (r: &mut CoreLocalData)
        requires
            old(self).wf(),
            old(self).slots_seq()[apic_id as int] is Some,
        ensures
            final(self).wf(),
            *r == old(self).slots_seq()[apic_id as int]->Some_0,
            final(self).slots_seq() == old(self).slots_seq().update(
                apic_id as int,
                Some(*final(r)),
            ),
    {
        let i = apic_id as usize;
        match &mut self.slots[i] {
            Some(r) => r,
            None => vstd::pervasive::unreached(),
        }
    }

    /// This core's index; the slot must be initialized.
    pub fn cpu_index(&self, apic_id: u8) -> (r: u64)
        requires
            self.wf(),
            self.slots_seq()[apic_id as int] is Some,
        ensures
            r == self.slots_seq()[apic_id as int]->Some_0.cpu_index,
    {
        let i = apic_id as usize;
        match &self.slots[i] {
            Some(c) => c.cpu_index,
            None => vstd::pervasive::unreached(),
        }
    }

    /// Shared access to this core's slot, usable before full
    /// initialization: `None` when the slot was never installed.
    pub fn try_get_cld(&self, apic_id: u8) -> (r: Option<&CoreLocalData>)
        requires
            self.wf(),
        ensures
            r is Some <==> self.slots_seq()[apic_id as int] is Some,
            r matches Some(c) ==> *c == self.slots_seq()[apic_id as int]->Some_0,
    {
        let i = apic_id as usize;
        match &self.slots[i] {
            Some(c) => Some(c),
            None => None,
        }
    }
}

} // verus!
