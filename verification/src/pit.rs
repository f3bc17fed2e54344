//! The programmable interval timer, channel 2.
//!
//! The kernel uses the PIT only for one-shot delays during APIC timer
//! calibration and SMP bring-up. The device is modelled by the state the
//! driver programs: the channel-2 control bits (gate enable, speaker gate,
//! output status), the last mode byte, and the reload value. `elapse`
//! stands for the hardware countdown reaching zero, which on the real
//! device raises the output pin that `wait_for_timeout` polls.

use vstd::prelude::*;

verus! {

/// The PIT input clock rate in Hz.
pub const BASE_FREQUENCY: u64 = 1_193_182;

/// Control-register bit enabling the channel-2 gate.
pub const CONTROL_GATE: u8 = 1;
/// Control-register bit gating the speaker.
pub const CONTROL_SPEAKER: u8 = 2;
/// Control-register bit reflecting the channel-2 output pin.
pub const CONTROL_OUT: u8 = 0x20;

/// The mode byte the driver programs: channel 2, low-and-high byte access,
/// interrupt-on-terminal-count, binary format.
pub const MODE_CHANNEL2_LOHI_MODE0: u8 = 0xb0;

/// The ways a timer operation can fail.
#[derive(Debug, Clone, Copy, Eq, PartialEq, Structural)]
pub enum TimerResult {
    /// The requested delay does not fit the 16-bit counter.
    OutOfRange,
    /// The channel is not running.
    NotActive,
}

/// The number of PIT ticks in `us` microseconds.
pub open spec fn spec_counter(us: u16) -> int {
    (BASE_FREQUENCY * us) as int / 1_000_000
}

/// The channel-2 device state the driver programs.
pub struct Pit {
    control: u8,
    mode: u8,
    reload: u16,
}

impl Pit {
    /// The control byte (port 0x61).
    pub closed spec fn control(self) -> u8 {
        self.control
    }

    /// The last mode byte written (port 0x43).
    pub closed spec fn mode(self) -> u8 {
        self.mode
    }

    /// The programmed reload value.
    pub closed spec fn reload(self) -> u16 {
        self.reload
    }

    /// Whether the channel-2 gate is enabled.
    pub open spec fn enabled(self) -> bool {
        self.control() & CONTROL_GATE != 0
    }

    /// Whether the countdown has reached zero (output pin high).
    pub open spec fn expired(self) -> bool {
        self.control() & CONTROL_OUT != 0
    }

    /// The device as firmware leaves it: the model takes the initial
    /// control byte as input.
    pub fn new(control: u8) -> (r: Self)
        ensures
            r.control() == control,
            r.mode() == 0,
            r.reload() == 0,
    {
        Pit { control, mode: 0, reload: 0 }
    }

    /// Programs a one-shot delay of `us` microseconds: fails with
    /// `OutOfRange` exactly when the tick count exceeds the 16-bit counter.
    /// On success the speaker gate is closed, the channel gate opened, the
    /// output cleared, the mode byte programmed, and the counter loaded;
    /// on failure the device is untouched.
    pub fn set(&mut self, us: u16) -> (r: Result<(), TimerResult>)
        ensures
            r is Ok <==> spec_counter(us) <= 0xffff,
            r is Err ==> r == Err::<(), TimerResult>(TimerResult::OutOfRange) && *final(self)
                == *old(self),
            r is Ok ==> {
                &&& final(self).control() == (old(self).control() & !(CONTROL_SPEAKER
                    | CONTROL_OUT)) | CONTROL_GATE
                &&& final(self).mode() == MODE_CHANNEL2_LOHI_MODE0
                &&& final(self).reload() == spec_counter(us)
            },
    {
        let counter = BASE_FREQUENCY * us as u64 / 1_000_000;
        if counter > 0xffff {
            return Err(TimerResult::OutOfRange);
        }
        self.control = (self.control & !(CONTROL_SPEAKER | CONTROL_OUT)) | CONTROL_GATE;
        self.mode = MODE_CHANNEL2_LOHI_MODE0;
        self.reload = counter as u16;
        Ok(())
    }

    /// Latches and reads the counter back; the model holds the programmed
    /// reload value.
    pub fn get(&self) -> (r: u16)
        ensures
            r == self.reload(),
    {
        self.reload
    }

    /// Whether the channel is running: gate open and output still low.
    pub fn is_active(&self) -> (r: bool)
        ensures
            r == (self.enabled() && !self.expired()),
    {
        self.control & CONTROL_GATE != 0 && self.control & CONTROL_OUT == 0
    }

    /// The hardware countdown reaching zero: raises the output pin when the
    /// gate is open. The driver never calls this; the passage of time does.
    pub fn elapse(&mut self)
        ensures
            old(self).enabled() ==> final(self).control() == old(self).control() | CONTROL_OUT,
            !old(self).enabled() ==> *final(self) == *old(self),
            final(self).mode() == old(self).mode(),
            final(self).reload() == old(self).reload(),
    {
        if self.control & CONTROL_GATE != 0 {
            self.control = self.control | CONTROL_OUT;
        }
    }

    /// Polls the output pin once the countdown has ended, which `delay`
    /// arranges before calling: fails with `NotActive` exactly when the
    /// gate is closed.
    pub fn wait_for_timeout(&self) -> (r: Result<(), TimerResult>)
        requires
            self.enabled() ==> self.expired(),
        ensures
            r is Ok <==> self.enabled(),
            !self.enabled() ==> r == Err::<(), TimerResult>(TimerResult::NotActive),
    {
        if self.control & CONTROL_GATE == 0 {
            Err(TimerResult::NotActive)
        } else {
            Ok(())
        }
    }

    /// Programs a delay and waits for it to end: fails with `OutOfRange`
    /// exactly when the tick count exceeds the 16-bit counter.
    pub fn delay(&mut self, us: u16) -> (r: Result<(), TimerResult>)
        ensures
            r is Ok <==> spec_counter(us) <= 0xffff,
            r is Err ==> r == Err::<(), TimerResult>(TimerResult::OutOfRange) && *final(self)
                == *old(self),
            r is Ok ==> {
                &&& final(self).control() == ((old(self).control() & !CONTROL_SPEAKER)
                    | CONTROL_GATE) | CONTROL_OUT
                &&& final(self).mode() == MODE_CHANNEL2_LOHI_MODE0
                &&& final(self).reload() == spec_counter(us)
            },
    {
        let r = self.set(us);
        if r.is_err() {
            return r;
        }
        self.elapse();
        proof {
            let c = old(self).control();
            assert(((c & !(CONTROL_SPEAKER | CONTROL_OUT)) | CONTROL_GATE) & CONTROL_GATE != 0)
                by (bit_vector);
            assert(((((c & !(CONTROL_SPEAKER | CONTROL_OUT)) | CONTROL_GATE) | CONTROL_OUT)
                & CONTROL_OUT) != 0) by (bit_vector);
            assert(((((c & !(CONTROL_SPEAKER | CONTROL_OUT)) | CONTROL_GATE) | CONTROL_OUT)
                & CONTROL_GATE) != 0) by (bit_vector);
            assert((((c & !(CONTROL_SPEAKER | CONTROL_OUT)) | CONTROL_GATE) | CONTROL_OUT) == (((c
                & !CONTROL_SPEAKER) | CONTROL_GATE) | CONTROL_OUT)) by (bit_vector);
        }
        self.wait_for_timeout()
    }

    /// Closes the channel gate and the speaker gate.
    pub fn disable(&mut self)
        ensures
            final(self).control() == 0,
            final(self).mode() == old(self).mode(),
            final(self).reload() == old(self).reload(),
    {
        self.control = 0;
    }
}

} // verus!
