//! The local-APIC driver.
//!
//! The hardware exposes one register file per core, memory-mapped at a base
//! that ACPI reports; registers sit at 16-byte strides. The model holds the
//! register file as a vector indexed by `offset / 16`, so every read and
//! write carries an exact contract, and the timer arithmetic is verified
//! against the calibration value.

use vstd::prelude::*;

use crate::percore::CoreLocalData;

verus! {

/// One more than the highest register index
/// (`ExtendedInterruptLocalVectorTable` at offset 0x500).
pub const APIC_REG_COUNT: usize = 81;

/// Mask bit of a local-vector-table entry.
pub const LVT_MASKED: u32 = 0x10000;
/// Periodic-mode bit of the timer LVT entry.
pub const LVT_TIMER_PERIODIC: u32 = 0x20000;
/// One-shot trigger bit the driver uses for the timer LVT entry.
pub const LVT_TIMER_ONE_SHOT: u32 = 0x40000;
/// Interrupt vector the timer fires on.
pub const TIMER_VECTOR: u32 = 32;

/// The memory-mapped local-APIC registers.
pub enum Offset {
    Id,
    Version,
    TaskPriority,
    ArbitrationPriority,
    ProcessorPriority,
    EndOfInterrupt,
    RemoteRead,
    LocalDestination,
    DestinationFormat,
    SpuriousInterruptVector,
    InService,
    TriggerMode,
    InterruptRequest,
    ErrorStatus,
    InterruptCommandLow,
    InterruptCommandHigh,
    TimerLocalVectorTableEntry,
    ThermalLocalVectorTableEntry,
    PerformanceCounterLocalVectorTableEntry,
    LocalInterrupt0VectorTableEntry,
    LocalInterrupt1VectorTableEntry,
    ErrorVectorTableEntry,
    TimerInitialCount,
    TimerCurrentCount,
    TimerDivideConfiguration,
    ExtendedApicFeature,
    ExtendedApicControl,
    SpecificEndOfInterrupt,
    InterruptEnable,
    ExtendedInterruptLocalVectorTable,
}

/// The register index (byte offset divided by 16) of `o`.
pub open spec fn spec_reg_index(o: Offset) -> int {
    match o {
        Offset::Id => 0x02,
        Offset::Version => 0x03,
        Offset::TaskPriority => 0x08,
        Offset::ArbitrationPriority => 0x09,
        Offset::ProcessorPriority => 0x0a,
        Offset::EndOfInterrupt => 0x0b,
        Offset::RemoteRead => 0x0c,
        Offset::LocalDestination => 0x0d,
        Offset::DestinationFormat => 0x0e,
        Offset::SpuriousInterruptVector => 0x0f,
        Offset::InService => 0x10,
        Offset::TriggerMode => 0x18,
        Offset::InterruptRequest => 0x20,
        Offset::ErrorStatus => 0x28,
        Offset::InterruptCommandLow => 0x30,
        Offset::InterruptCommandHigh => 0x31,
        Offset::TimerLocalVectorTableEntry => 0x32,
        Offset::ThermalLocalVectorTableEntry => 0x33,
        Offset::PerformanceCounterLocalVectorTableEntry => 0x34,
        Offset::LocalInterrupt0VectorTableEntry => 0x35,
        Offset::LocalInterrupt1VectorTableEntry => 0x36,
        Offset::ErrorVectorTableEntry => 0x37,
        Offset::TimerInitialCount => 0x38,
        Offset::TimerCurrentCount => 0x39,
        Offset::TimerDivideConfiguration => 0x3e,
        Offset::ExtendedApicFeature => 0x40,
        Offset::ExtendedApicControl => 0x41,
        Offset::SpecificEndOfInterrupt => 0x42,
        Offset::InterruptEnable => 0x48,
        Offset::ExtendedInterruptLocalVectorTable => 0x50,
    }
}

fn reg_index(o: &Offset) -> (r: usize)
    ensures
        r == spec_reg_index(*o),
        r < APIC_REG_COUNT,
{
    match o {
        Offset::Id => 0x02,
        Offset::Version => 0x03,
        Offset::TaskPriority => 0x08,
        Offset::ArbitrationPriority => 0x09,
        Offset::ProcessorPriority => 0x0a,
        Offset::EndOfInterrupt => 0x0b,
        Offset::RemoteRead => 0x0c,
        Offset::LocalDestination => 0x0d,
        Offset::DestinationFormat => 0x0e,
        Offset::SpuriousInterruptVector => 0x0f,
        Offset::InService => 0x10,
        Offset::TriggerMode => 0x18,
        Offset::InterruptRequest => 0x20,
        Offset::ErrorStatus => 0x28,
        Offset::InterruptCommandLow => 0x30,
        Offset::InterruptCommandHigh => 0x31,
        Offset::TimerLocalVectorTableEntry => 0x32,
        Offset::ThermalLocalVectorTableEntry => 0x33,
        Offset::PerformanceCounterLocalVectorTableEntry => 0x34,
        Offset::LocalInterrupt0VectorTableEntry => 0x35,
        Offset::LocalInterrupt1VectorTableEntry => 0x36,
        Offset::ErrorVectorTableEntry => 0x37,
        Offset::TimerInitialCount => 0x38,
        Offset::TimerCurrentCount => 0x39,
        Offset::TimerDivideConfiguration => 0x3e,
        Offset::ExtendedApicFeature => 0x40,
        Offset::ExtendedApicControl => 0x41,
        Offset::SpecificEndOfInterrupt => 0x42,
        Offset::InterruptEnable => 0x48,
        Offset::ExtendedInterruptLocalVectorTable => 0x50,
    }
}

/// One core's local APIC: the register file the driver reads and writes.
pub struct Apic {
    regs: Vec<u32>,
}

impl Apic {
    /// The register file.
    pub closed spec fn regs_seq(self) -> Seq<u32> {
        self.regs@
    }

    /// Well-formedness: the full register file is present.
    pub open spec fn wf(self) -> bool {
        self.regs_seq().len() == APIC_REG_COUNT
    }

    /// The value of register `o`.
    pub open spec fn reg(self, o: Offset) -> u32 {
        self.regs_seq()[spec_reg_index(o)]
    }

    /// A register file with the given initial contents per register index.
    /// On hardware the initial contents are whatever firmware left behind;
    /// the model takes them as input.
    pub fn new(initial: Vec<u32>) -> (r: Self)
        requires
            initial@.len() == APIC_REG_COUNT,
        ensures
            r.wf(),
            r.regs_seq() == initial@,
    {
        Apic { regs: initial }
    }

    /// Reads register `o`.
    pub fn read(&self, o: Offset) -> (r: u32)
        requires
            self.wf(),
        ensures
            r == self.reg(o),
    {
        let i = reg_index(&o);
        self.regs[i]
    }

    /// Writes register `o`, leaving every other register unchanged.
    pub fn write(&mut self, o: Offset, value: u32)
        requires
            old(self).wf(),
        ensures
            final(self).wf(),
            final(self).regs_seq() == old(self).regs_seq().update(spec_reg_index(o), value),
    {
        let i = reg_index(&o);
        self.regs[i] = value;
    }

    /// Signals end of interrupt by writing zero to the EOI register.
    pub fn signal_end_of_interrupt(&mut self)
        requires
            old(self).wf(),
        ensures
            final(self).wf(),
            final(self).regs_seq() == old(self).regs_seq().update(
                spec_reg_index(Offset::EndOfInterrupt),
                0u32,
            ),
    {
        self.write(Offset::EndOfInterrupt, 0);
    }

    /// The local APIC id: the upper byte of the ID register.
    pub fn id(&self) -> (r: u8)
        requires
            self.wf(),
        ensures
            r == (self.reg(Offset::Id) >> 24) as u8,
    {
        (self.read(Offset::Id) >> 24) as u8
    }

    /// Writes an inter-processor interrupt command: the high dword first,
    /// then the low dword, whose write triggers delivery.
    pub fn write_interrupt_command(&mut self, cmd: InterruptCommand)
        requires
            old(self).wf(),
        ensures
            final(self).wf(),
            final(self).reg(Offset::InterruptCommandHigh) == (cmd.0 >> 32) as u32,
            final(self).reg(Offset::InterruptCommandLow) == (cmd.0 & 0xffff_ffff) as u32,
            forall|o: Offset|
                spec_reg_index(o) != spec_reg_index(Offset::InterruptCommandHigh)
                    && spec_reg_index(o) != spec_reg_index(Offset::InterruptCommandLow)
                    ==> #[trigger] final(self).reg(o) == old(self).reg(o),
    {
        let high = cmd.upper() as u32;
        let low = (cmd.lower() & 0xffff_ffff) as u32;
        self.write(Offset::InterruptCommandHigh, high);
        self.write(Offset::InterruptCommandLow, low);
        proof {
            let c = cmd.0;
            assert(((c & 0xffff_ffff) & 0xffff_ffff) as u32 == (c & 0xffff_ffff) as u32)
                by (bit_vector);
        }
    }

    /// Reads the inter-processor interrupt command register pair back.
    pub fn read_interrupt_command(&self) -> (r: InterruptCommand)
        requires
            self.wf(),
        ensures
            r.0 == ((self.reg(Offset::InterruptCommandHigh) as u64) << 32) | (self.reg(
                Offset::InterruptCommandLow,
            ) as u64),
    {
        let high = self.read(Offset::InterruptCommandHigh);
        let low = self.read(Offset::InterruptCommandLow);
        InterruptCommand(((high as u64) << 32) | (low as u64))
    }

    /// Calibration: after the PIT has delayed 50 ms from an initial count of
    /// `0xFFFF_FFFF`, the timer ticked `0xFFFF_FFFF - current` times, so it
    /// ticks twenty times that per second. The caller reads the current
    /// count after the delay and hands it in; a count that did not move at
    /// all means a broken timer, which the kernel treats as fatal.
    pub fn init_timer(&mut self, current_count: u32) -> (ticks_per_second: u64)
        requires
            old(self).wf(),
            current_count < 0xffff_ffff,
        ensures
            final(self).wf(),
            ticks_per_second == (0xffff_ffffu64 - current_count) * 20,
            ticks_per_second > 0,
            final(self).reg(Offset::TimerDivideConfiguration) == 3u32,
            final(self).reg(Offset::TimerInitialCount) == 0xffff_ffffu32,
            final(self).reg(Offset::TimerLocalVectorTableEntry) == LVT_MASKED,
            forall|o: Offset|
                spec_reg_index(o) != spec_reg_index(Offset::TimerDivideConfiguration)
                    && spec_reg_index(o) != spec_reg_index(Offset::TimerInitialCount)
                    && spec_reg_index(o) != spec_reg_index(Offset::TimerLocalVectorTableEntry)
                    ==> #[trigger] final(self).reg(o) == old(self).reg(o),
    {
        self.write(Offset::TimerDivideConfiguration, 0x3);
        self.write(Offset::TimerInitialCount, 0xffff_ffff);
        self.write(Offset::TimerLocalVectorTableEntry, LVT_MASKED);
        let ticks_in_50ms = 0xffff_ffffu64 - current_count as u64;
        ticks_in_50ms * 20
    }

    /// Programs the timer: the callback token is stored in the per-core
    /// data in every case, and the interval in microseconds is converted
    /// to ticks with this core's calibrated rate; the call fails exactly
    /// when the tick count overflows 32 bits. On success the timer LVT
    /// carries vector 32 with the periodic or one-shot bit, divider 16 is
    /// selected, and the initial count is loaded; on failure no register
    /// changes. The core must have calibrated its timer first.
    pub fn start_timer(
        &mut self,
        cld: &mut CoreLocalData,
        interval_us: u32,
        periodic: bool,
        interrupt: u64,
    ) -> (r: Result<u32, ()>)
        requires
            old(self).wf(),
            old(cld).apic_timer_ticks_per_second is Some,
            old(cld).apic_timer_ticks_per_second->Some_0 * interval_us <= u64::MAX,
            periodic ==> old(cld).apic_timer_ticks_per_second->Some_0 * interval_us / 1_000_000
                > 0,
        ensures
            final(self).wf(),
            final(cld).apic_timer_interrupt_function == Some(interrupt),
            final(cld).cpu_index == old(cld).cpu_index,
            final(cld).apic_timer_ticks_per_second == old(cld).apic_timer_ticks_per_second,
            final(cld).running_application_data == old(cld).running_application_data,
            r is Ok <==> old(cld).apic_timer_ticks_per_second->Some_0 * interval_us / 1_000_000
                <= u32::MAX,
            r matches Ok(ticks) ==> {
                &&& ticks == old(cld).apic_timer_ticks_per_second->Some_0 * interval_us
                    / 1_000_000
                &&& final(self).reg(Offset::TimerLocalVectorTableEntry) == TIMER_VECTOR | if periodic {
                    LVT_TIMER_PERIODIC
                } else {
                    LVT_TIMER_ONE_SHOT
                }
                &&& final(self).reg(Offset::TimerDivideConfiguration) == 3u32
                &&& final(self).reg(Offset::TimerInitialCount) == ticks
            },
            r is Err ==> final(self).regs_seq() == old(self).regs_seq(),
    {
        cld.apic_timer_interrupt_function = Some(interrupt);
        let ticks_per_second = match cld.apic_timer_ticks_per_second {
            Some(t) => t,
            None => vstd::pervasive::unreached(),
        };
        let ticks_wide: u64 = (ticks_per_second * interval_us as u64) / 1_000_000;
        if ticks_wide > 0xffff_ffff {
            return Err(());
        }
        let ticks: u32 = ticks_wide as u32;
        self.write(Offset::TimerLocalVectorTableEntry, LVT_MASKED);
        self.write(
            Offset::TimerLocalVectorTableEntry,
            TIMER_VECTOR | if periodic {
                LVT_TIMER_PERIODIC
            } else {
                LVT_TIMER_ONE_SHOT
            },
        );
        self.write(Offset::TimerDivideConfiguration, 0x3);
        self.write(Offset::TimerInitialCount, ticks);
        Ok(ticks)
    }

    /// Masks the timer interrupt in its local-vector-table entry.
    pub fn stop_timer(&mut self)
        requires
            old(self).wf(),
        ensures
            final(self).wf(),
            final(self).regs_seq() == old(self).regs_seq().update(
                spec_reg_index(Offset::TimerLocalVectorTableEntry),
                LVT_MASKED,
            ),
    {
        self.write(Offset::TimerLocalVectorTableEntry, LVT_MASKED);
    }
}

/// The programmed initial count differs from the exact value
/// `interval_us * ticks_per_second / 10^6` by less than one tick: the
/// integer division that computes it loses less than one unit.
pub proof fn lemma_timer_accuracy(interval_us: u32, ticks_per_second: u64)
    ensures
        1_000_000 * (((ticks_per_second as int) * (interval_us as int)) / 1_000_000) <= (
        ticks_per_second as int) * (interval_us as int),
        (ticks_per_second as int) * (interval_us as int) < 1_000_000 * ((((ticks_per_second as int)
            * (interval_us as int)) / 1_000_000) + 1),
{
    let p = (ticks_per_second as int) * (interval_us as int);
    assert(p >= 0 && 1_000_000 * (p / 1_000_000) <= p < 1_000_000 * (p / 1_000_000 + 1))
        by (nonlinear_arith)
        requires
            p == (ticks_per_second as int) * (interval_us as int),
            ticks_per_second >= 0,
            interval_us >= 0,
    ;
}

/// The 64-bit inter-processor interrupt command: a register pair with
/// packed fields, built by hand in place of a generated bit-field accessor.
    #[derive(Clone, Copy, PartialEq, Eq, Structural)]
pub struct InterruptCommand(pub u64);

impl InterruptCommand {
    /// Sets the interrupt vector (bits 7..0).
    pub fn set_interupt_vector(&mut self, v: u64)
        ensures
            final(self).0 == (old(self).0 & !0xffu64) | (v & 0xff),
    {
        self.0 = (self.0 & !0xffu64) | (v & 0xff);
    }

    /// Sets the delivery mode (bits 10..8).
    pub fn set_delivery_mode(&mut self, v: u64)
        ensures
            final(self).0 == (old(self).0 & !0x700u64) | ((v & 0x7) << 8),
    {
        self.0 = (self.0 & !0x700u64) | ((v & 0x7) << 8);
    }

    /// Sets the logical-destination-mode flag (bit 11).
    pub fn set_destination_mode_logical(&mut self, v: bool)
        ensures
            final(self).0 == if v {
                old(self).0 | 0x800u64
            } else {
                old(self).0 & !0x800u64
            },
    {
        if v {
            self.0 = self.0 | 0x800u64;
        } else {
            self.0 = self.0 & !0x800u64;
        }
    }

    /// Sets the level flag named "not de-assert" (bit 14).
    pub fn set_not_de_assert(&mut self, v: bool)
        ensures
            final(self).0 == if v {
                old(self).0 | 0x4000u64
            } else {
                old(self).0 & !0x4000u64
            },
    {
        if v {
            self.0 = self.0 | 0x4000u64;
        } else {
            self.0 = self.0 & !0x4000u64;
        }
    }

    /// Sets the trigger flag named "de-assert" (bit 15).
    pub fn set_de_assert(&mut self, v: bool)
        ensures
            final(self).0 == if v {
                old(self).0 | 0x8000u64
            } else {
                old(self).0 & !0x8000u64
            },
    {
        if v {
            self.0 = self.0 | 0x8000u64;
        } else {
            self.0 = self.0 & !0x8000u64;
        }
    }

    /// Sets the destination shorthand (bits 19..18).
    pub fn set_destination_type(&mut self, v: u64)
        ensures
            final(self).0 == (old(self).0 & !0xc0000u64) | ((v & 0x3) << 18),
    {
        self.0 = (self.0 & !0xc0000u64) | ((v & 0x3) << 18);
    }

    /// Sets the destination APIC id (bits 59..56).
    pub fn set_apic_id(&mut self, v: u64)
        ensures
            final(self).0 == (old(self).0 & !(0xfu64 << 56)) | ((v & 0xf) << 56),
    {
        self.0 = (self.0 & !(0xfu64 << 56)) | ((v & 0xf) << 56);
    }

    /// The low dword (bits 31..0).
    pub fn lower(&self) -> (r: u64)
        ensures
            r == self.0 & 0xffff_ffffu64,
    {
        self.0 & 0xffff_ffffu64
    }

    /// The high dword (bits 63..32).
    pub fn upper(&self) -> (r: u64)
        ensures
            r == self.0 >> 32,
    {
        self.0 >> 32
    }

    /// The delivery-status flag (bit 12).
    pub fn delivery_status(&self) -> (r: bool)
        ensures
            r == (self.0 & 0x1000u64 != 0),
    {
        self.0 & 0x1000u64 != 0
    }
}

/// The INIT inter-processor interrupt: delivery mode INIT (5), level
/// asserted, destination shorthand "all excluding self" (3).
pub fn create_send_init_cmd() -> (r: InterruptCommand)
    ensures
        r.0 == 0xc4500u64,
{
    let mut ic = InterruptCommand(0);
    ic.set_interupt_vector(0);
    ic.set_delivery_mode(5);
    ic.set_destination_mode_logical(false);
    ic.set_de_assert(false);
    ic.set_not_de_assert(true);
    ic.set_destination_type(3);
    proof {
        assert(((((((0u64 & !0xffu64 | (0u64 & 0xff)) & !0x700u64 | ((5u64 & 0x7) << 8))
            & !0x800u64) & !0x8000u64) | 0x4000u64) & !0xc0000u64 | ((3u64 & 0x3) << 18))
            == 0xc4500u64) by (bit_vector);
    }
    ic
}

/// The STARTUP inter-processor interrupt for trampoline page `vector`:
/// delivery mode STARTUP (6), level asserted, destination shorthand
/// "all excluding self" (3).
pub fn create_startup_cmd(vector: u8) -> (r: InterruptCommand)
    ensures
        r.0 == 0xc4600u64 | (vector as u64),
{
    let mut ic = InterruptCommand(0);
    ic.set_interupt_vector(vector as u64);
    ic.set_delivery_mode(6);
    ic.set_destination_mode_logical(false);
    ic.set_de_assert(false);
    ic.set_not_de_assert(true);
    ic.set_destination_type(3);
    proof {
        let v = vector as u64;
        assert(v <= 0xff ==> ((((((0u64 & !0xffu64 | (v & 0xff)) & !0x700u64 | ((6u64 & 0x7)
            << 8)) & !0x800u64) & !0x8000u64) | 0x4000u64) & !0xc0000u64 | ((3u64 & 0x3) << 18))
            == (0xc4600u64 | v)) by (bit_vector);
    }
    ic
}

} // verus!
