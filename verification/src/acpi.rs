//! ACPI-derived platform facts.
//!
//! The ACPI tables themselves are parsed by an outside collaborator; what
//! the kernel takes from them is the local-APIC MMIO base and the number
//! of usable application processors. The counting rule over the
//! enumerated processors is decided and verified here.

use vstd::prelude::*;

verus! {

/// One enumerated processor, reduced to what the count reads.
#[derive(Clone, Copy, PartialEq, Eq, Structural)]
pub struct ProcessorEntry {
    /// Whether this is an application processor rather than the BSP.
    pub is_ap: bool,
    /// Whether firmware reports the processor as disabled.
    pub disabled: bool,
}

/// The platform facts the kernel keeps from the tables.
#[derive(Clone, Copy, PartialEq, Eq, Structural)]
pub struct Acpi {
    /// Physical address of the local-APIC register block.
    pub local_apic_addr: u64,
    /// Number of usable application processors.
    pub ap_count: u64,
}

/// How many entries of the first `n` are usable application processors.
pub open spec fn spec_ap_count(procs: Seq<ProcessorEntry>, n: int) -> int
    decreases n,
{
    if n <= 0 {
        0
    } else {
        spec_ap_count(procs, n - 1) + if procs[n - 1].is_ap && !procs[n - 1].disabled {
            1int
        } else {
            0int
        }
    }
}

/// Builds the platform facts from the local-APIC base and the enumerated
/// processors: a processor counts exactly when it is an application
/// processor and not disabled.
pub fn acpi_from_tables(local_apic_addr: u64, procs: &Vec<ProcessorEntry>) -> (r: Acpi)
    ensures
        r.local_apic_addr == local_apic_addr,
        r.ap_count == spec_ap_count(procs@, procs@.len() as int),
{
    let mut count: u64 = 0;
    let mut i: usize = 0;
    while i < procs.len()
        invariant
            i <= procs@.len(),
            count == spec_ap_count(procs@, i as int),
            count <= i,
        decreases procs@.len() - i,
    {
        if procs[i].is_ap && !procs[i].disabled {
            count = count + 1;
        }
        i += 1;
    }
    Acpi { local_apic_addr, ap_count: count }
}

} // verus!
