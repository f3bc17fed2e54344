//! Interrupt plumbing decisions.
//!
//! One interrupt-descriptor table is shared by all cores; installing it,
//! and the per-core GDT and TSS, is descriptor-table I/O outside the
//! library. What is decided here: the legacy-PIC initialization sequence
//! that moves its vectors out of the exception range and masks every line,
//! and the timer-interrupt handler's dispatch through the per-core
//! callback slot.

use vstd::prelude::*;

use crate::apic::{Apic, Offset};
use crate::percore::CoreLocalData;

verus! {

/// Command port of the primary PIC.
pub const PIC1_CMD: u16 = 0x20;
/// Data port of the primary PIC.
pub const PIC1_DATA: u16 = 0x21;
/// Command port of the secondary PIC.
pub const PIC2_CMD: u16 = 0xa0;
/// Data port of the secondary PIC.
pub const PIC2_DATA: u16 = 0xa1;
/// Scratch port written between initialization words to let them settle.
pub const WAIT_PORT: u16 = 0x80;

/// The port writes that remap both legacy PICs to the given vector
/// offsets and mask every interrupt line, in write order: the cascade-mode
/// initialization word, the vector offsets, the wiring between the two
/// chips, 8086 mode, and finally an all-ones mask on both data ports.
pub fn remap_and_disable_pic(offset1: u8, offset2: u8) -> (r: Vec<(u16, u8)>)
    ensures
        r@ =~= seq![
            (PIC1_CMD, 0x11u8),
            (WAIT_PORT, 0u8),
            (PIC2_CMD, 0x11u8),
            (WAIT_PORT, 0u8),
            (PIC1_DATA, offset1),
            (WAIT_PORT, 0u8),
            (PIC2_DATA, offset2),
            (WAIT_PORT, 0u8),
            (PIC1_DATA, 4u8),
            (WAIT_PORT, 0u8),
            (PIC2_DATA, 2u8),
            (WAIT_PORT, 0u8),
            (PIC1_DATA, 1u8),
            (WAIT_PORT, 0u8),
            (PIC2_DATA, 1u8),
            (WAIT_PORT, 0u8),
            (PIC1_DATA, 0xffu8),
            (PIC2_DATA, 0xffu8),
        ],
{
    let mut r: Vec<(u16, u8)> = Vec::new();
    r.push((PIC1_CMD, 0x11));
    r.push((WAIT_PORT, 0));
    r.push((PIC2_CMD, 0x11));
    r.push((WAIT_PORT, 0));
    r.push((PIC1_DATA, offset1));
    r.push((WAIT_PORT, 0));
    r.push((PIC2_DATA, offset2));
    r.push((WAIT_PORT, 0));
    r.push((PIC1_DATA, 4));
    r.push((WAIT_PORT, 0));
    r.push((PIC2_DATA, 2));
    r.push((WAIT_PORT, 0));
    r.push((PIC1_DATA, 1));
    r.push((WAIT_PORT, 0));
    r.push((PIC2_DATA, 1));
    r.push((WAIT_PORT, 0));
    r.push((PIC1_DATA, 0xff));
    r.push((PIC2_DATA, 0xff));
    r
}

/// The timer-interrupt handler's decision: the per-core callback token to
/// invoke, if one is installed, with end-of-interrupt signalled either
/// way.
pub fn timer_interrupt(cld: &CoreLocalData, apic: &mut Apic) -> (r: Option<u64>)
    requires
        old(apic).wf(),
    ensures
        final(apic).wf(),
        r == cld.apic_timer_interrupt_function,
        final(apic).reg(Offset::EndOfInterrupt) == 0u32,
{
    let callback = cld.apic_timer_interrupt_function;
    apic.signal_end_of_interrupt();
    callback
}

} // verus!
