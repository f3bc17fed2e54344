//! The APIC, PIT, serial and barrier device models.

use steelmind_kernel::apic::{create_send_init_cmd, create_startup_cmd, Apic, InterruptCommand,
    Offset, APIC_REG_COUNT, LVT_MASKED, LVT_TIMER_PERIODIC, TIMER_VECTOR};
use steelmind_kernel::percore::CoreLocalData;
use steelmind_kernel::pit::{Pit, TimerResult};
use steelmind_kernel::serial::{baud_divisor, com_base, init, BaudRate, ComPort, ReadPort,
    SerialError, WritePort, LSR_FRAMING_ERROR, LSR_OVERRUN_ERROR};
use steelmind_kernel::smp::{calc_stack_stride, startup_aps, sync_cores_barrier, trampoline_patches,
    Barrier};

fn fresh_apic() -> Apic {
    let mut regs = Vec::new();
    let mut i = 0;
    while i < APIC_REG_COUNT {
        regs.push(0u32);
        i += 1;
    }
    Apic::new(regs)
}

#[test]
fn apic_id_is_upper_byte_of_id_register() {
    let mut apic = fresh_apic();
    apic.write(Offset::Id, 0x2b00_0000);
    assert_eq!(apic.id(), 0x2b);
}

#[test]
fn apic_interrupt_command_round_trip() {
    let mut apic = fresh_apic();
    let cmd = InterruptCommand(0x0123_4567_89ab_cdef);
    apic.write_interrupt_command(cmd);
    assert_eq!(apic.read(Offset::InterruptCommandHigh), 0x0123_4567);
    assert_eq!(apic.read(Offset::InterruptCommandLow), 0x89ab_cdef);
    assert_eq!(apic.read_interrupt_command().0, 0x0123_4567_89ab_cdef);
}

#[test]
fn ipi_command_values() {
    assert_eq!(create_send_init_cmd().0, 0xc4500);
    assert_eq!(create_startup_cmd(0).0, 0xc4600);
    assert_eq!(create_startup_cmd(7).0, 0xc4607);
}

#[test]
fn apic_timer_calibration() {
    let mut apic = fresh_apic();
    // the timer counted down 50 ms worth of ticks from 0xffff_ffff
    let tps = apic.init_timer(0xffff_ffff - 1_000_000);
    assert_eq!(tps, 20_000_000);
    assert_eq!(apic.read(Offset::TimerInitialCount), 0xffff_ffff);
    assert_eq!(apic.read(Offset::TimerLocalVectorTableEntry), LVT_MASKED);
}

#[test]
fn apic_start_timer_programs_exact_count() {
    let mut apic = fresh_apic();
    let mut cld = CoreLocalData::new(0);
    cld.apic_timer_ticks_per_second = Some(20_000_000);
    let r = apic.start_timer(&mut cld, 30_000, true, 7);
    assert_eq!(r, Ok(600_000));
    assert_eq!(cld.apic_timer_interrupt_function, Some(7));
    assert_eq!(apic.read(Offset::TimerInitialCount), 600_000);
    assert_eq!(
        apic.read(Offset::TimerLocalVectorTableEntry),
        TIMER_VECTOR | LVT_TIMER_PERIODIC
    );
    assert_eq!(apic.read(Offset::TimerDivideConfiguration), 3);
}

#[test]
fn apic_start_timer_rejects_tick_overflow() {
    let mut apic = fresh_apic();
    let before = apic.read(Offset::TimerInitialCount);
    let mut cld = CoreLocalData::new(0);
    // 5 seconds at 1 GHz overflows the 32-bit initial count
    cld.apic_timer_ticks_per_second = Some(1_000_000_000);
    let r = apic.start_timer(&mut cld, 5_000_000, false, 9);
    assert_eq!(r, Err(()));
    assert_eq!(apic.read(Offset::TimerInitialCount), before);
    // the callback is stored in every case
    assert_eq!(cld.apic_timer_interrupt_function, Some(9));
}

#[test]
fn pit_set_rejects_out_of_range_delay() {
    let mut pit = Pit::new(0);
    assert_eq!(pit.set(60_000), Err(TimerResult::OutOfRange));
    assert_eq!(pit.get(), 0);
}

#[test]
fn pit_set_programs_counter_and_mode() {
    let mut pit = Pit::new(0);
    assert_eq!(pit.set(50_000), Ok(()));
    // 1_193_182 * 50_000 / 1_000_000 ticks
    assert_eq!(pit.get(), 59_659);
    assert!(pit.is_active());
}

#[test]
fn pit_delay_and_timeout() {
    let mut pit = Pit::new(0);
    assert_eq!(pit.delay(10_000), Ok(()));
    assert!(!pit.is_active());
    pit.disable();
    assert_eq!(pit.wait_for_timeout(), Err(TimerResult::NotActive));
}

#[test]
fn serial_constants() {
    assert_eq!(com_base(ComPort::COM1), 0x3f8);
    assert_eq!(com_base(ComPort::COM4), 0x2e8);
    assert_eq!(baud_divisor(BaudRate::BAUD_115200), 1);
    assert_eq!(baud_divisor(BaudRate::BAUD_300), 384);
}

#[test]
fn serial_init_write_plan() {
    let plan = init(ComPort::COM1, BaudRate::BAUD_38400);
    assert_eq!(plan, vec![(3, 0x80), (0, 3), (1, 0), (3, 0x03), (1, 0), (4, 0)]);
}

#[test]
fn serial_read_returns_delivered_bytes_in_order() {
    let mut port = ReadPort::new(ComPort::COM1);
    assert_eq!(port.try_read(), Err(SerialError::Busy));
    port.receive(b'a');
    port.receive(b'b');
    assert_eq!(port.read(), Ok(b'a'));
    assert_eq!(port.read(), Ok(b'b'));
    assert_eq!(port.try_read(), Err(SerialError::Busy));
}

#[test]
fn serial_read_reports_line_errors_once() {
    let mut port = ReadPort::new(ComPort::COM1);
    port.receive(b'x');
    port.raise_line_error(LSR_OVERRUN_ERROR | LSR_FRAMING_ERROR);
    assert_eq!(port.try_read(), Err(SerialError::OverrunError));
    // the status read cleared the error bits; the byte is still waiting
    assert_eq!(port.try_read(), Ok(b'x'));
}

#[test]
fn serial_write_collects_bytes() {
    let mut port = WritePort::new(ComPort::COM1);
    assert_eq!(port.try_write(b'h'), Ok(()));
    port.write(b'i');
    assert!(port.flush());
}

#[test]
fn smp_stack_stride_covers_stack_and_guard() {
    assert_eq!(calc_stack_stride(), (1024 + 1) * 4096);
}

#[test]
fn trampoline_patch_table() {
    let patches = trampoline_patches(0x1000, 0x2000, 0x3000, 0x4000, 0x5000);
    assert_eq!(
        patches,
        vec![(0xa00, 0x1000), (0xb00, 0x2000), (0xb10, 0x3000), (0xb20, 0x4000), (0xb30, 0x5000)]
    );
}

#[test]
fn startup_sequence_leaves_startup_command_latched() {
    let mut apic = fresh_apic();
    let mut pit = Pit::new(0);
    startup_aps(&mut apic, &mut pit);
    assert_eq!(apic.read(Offset::InterruptCommandLow), 0xc4600);
    assert_eq!(apic.read(Offset::InterruptCommandHigh), 0);
    // the last programmed delay was the 200 microsecond gap
    assert_eq!(pit.get(), 238);
}

#[test]
fn barrier_round_has_exactly_one_leader() {
    let mut barrier = Barrier::new(4);
    let mut leaders = 0;
    let mut i = 0;
    while i < 4 {
        if sync_cores_barrier(&mut barrier) {
            leaders += 1;
        }
        i += 1;
    }
    assert_eq!(leaders, 1);
    // the barrier resets and stays reusable for the next phase sync
    assert!(!barrier.wait());
    assert!(!barrier.wait());
    assert!(!barrier.wait());
    assert!(barrier.wait());
}
