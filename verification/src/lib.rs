//! A verified model of a small x86_64 kernel's core logic: physical frame
//! allocation, virtual-memory management with per-program address spaces,
//! SMP bring-up bookkeeping, the local-APIC and PIT timer drivers, the
//! RAM-disk container format, the user-program loader, and the framebuffer
//! terminal.
//!
//! Hardware access (MMIO, port I/O, the mode-switching trampoline) cannot be
//! exercised from a library, so each device is modelled by a struct holding
//! the state the driver logic reads and writes: register files for the APIC,
//! programmed state for the PIT, byte buffers for the serial ports and the
//! framebuffer, and an explicit map of page-table state for the memory
//! manager. The kernel's decision logic operates on these models and is
//! verified against exact contracts.

pub mod acpi;
pub mod addr;
pub mod frames;
pub mod heap;
pub mod interrupts;
pub mod loader;
pub mod logging;
pub mod paging;
pub mod percore;
pub mod ramdisk;
pub mod apic;
pub mod pit;
pub mod serial;
pub mod smp;
pub mod terminal;
pub mod tester;

use vstd::prelude::*;

verus! {

/// 4 KiB, the only page size the kernel maps.
pub const PAGE_SIZE: u64 = 4096;

} // verus!
