//! On-target test bookkeeping and the QEMU exit protocol.
//!
//! The kernel's on-target test runner counts tests as they start and, when
//! all pass, writes a code to the QEMU debug-exit port. The host observes
//! `(code << 1) | 1` as the emulator's exit status and checks for the
//! success value.

use vstd::prelude::*;

verus! {

/// The success value the host driver checks the emulator's exit status
/// against.
pub const HOST_SUCCESS_STATUS: u32 = 33;

/// Progress of a test run.
pub struct Tester {
    number_of_tests: u32,
    counter: u32,
}

impl Tester {
    /// How many tests the run holds.
    pub closed spec fn total(self) -> u32 {
        self.number_of_tests
    }

    /// How many tests have started.
    pub closed spec fn started(self) -> u32 {
        self.counter
    }

    /// A run of `number_of_tests` tests, none started.
    pub fn new(number_of_tests: u32) -> (r: Self)
        ensures
            r.total() == number_of_tests,
            r.started() == 0,
    {
        Tester { number_of_tests, counter: 0 }
    }

    /// Accounts one test as started; the announcement itself is log
    /// output, outside the library.
    pub fn start_test(&mut self)
        requires
            old(self).started() < old(self).total(),
        ensures
            final(self).total() == old(self).total(),
            final(self).started() == old(self).started() + 1,
    {
        self.counter = self.counter + 1;
    }
}

/// What an on-target run reports through the QEMU debug-exit port.
#[derive(Debug, Clone, Copy, PartialEq, Eq, Structural)]
pub enum QemuExitCode {
    /// Every test passed.
    Success,
    /// A test panicked.
    Failed,
}

/// The value written to the debug-exit port for an outcome.
pub fn exit_port_value(code: QemuExitCode) -> (r: u32)
    ensures
        code == QemuExitCode::Success ==> r == 0x10,
        code == QemuExitCode::Failed ==> r == 0x11,
{
    match code {
        QemuExitCode::Success => 0x10,
        QemuExitCode::Failed => 0x11,
    }
}

/// The exit status the host observes for an outcome: the port value
/// shifted left once with the low bit set, so success reads as 33.
pub fn host_observed_status(code: QemuExitCode) -> (r: u32)
    ensures
        r == (if code == QemuExitCode::Success {
            0x10u32
        } else {
            0x11u32
        }) * 2 + 1,
        (r == HOST_SUCCESS_STATUS) <==> code == QemuExitCode::Success,
{
    let v = exit_port_value(code);
    proof {
        assert((0x10u32 << 1) | 1 == 33 && (0x11u32 << 1) | 1 == 35 && 0x10u32 * 2 + 1 == 33
            && 0x11u32 * 2 + 1 == 35) by (bit_vector);
    }
    (v << 1) | 1
}

/// What an application processor runs in test mode: nothing beyond the
/// shared bring-up.
pub fn ap_test_main() {
}

} // verus!
