//! SMP bring-up orchestration, interrupt plumbing, and line reading.

use steelmind_kernel::apic::{Apic, Offset, APIC_REG_COUNT};
use steelmind_kernel::frames::MemoryRegion;
use steelmind_kernel::interrupts::{remap_and_disable_pic, timer_interrupt, PIC1_DATA, PIC2_DATA};
use steelmind_kernel::paging::Memory;
use steelmind_kernel::percore::CoreLocalData;
use steelmind_kernel::pit::Pit;
use steelmind_kernel::serial::{ComPort, ReadPort};
use steelmind_kernel::smp::{init_smp, init_smp_finish, next_ap_index, startup_wait_keep_spinning,
    AP_STACK_STRIDE, PATCH_STACK_BASE, SPURIOUS_ENABLE};
use steelmind_kernel::acpi::{acpi_from_tables, ProcessorEntry};
use steelmind_kernel::addr::{KERNEL_AP_STACKS, KERNEL_DYNAMIC_START};
use steelmind_kernel::paging::{FLAGS_FRAMEBUFFER_WC, FLAG_WRITABLE};
use steelmind_kernel::smp::{ap_entry, Barrier};

#[test]
fn smp_bring_up_maps_and_unmaps_the_trampoline() {
    // enough frames for one AP's stack: 1024 pages plus slack
    let regions = vec![MemoryRegion { start: 0x100000, end: 0x600000, usable: true }];
    let mut slice = Vec::new();
    for i in 0..16u64 {
        slice.push(i);
    }
    let mut mem = Memory::new(&regions, 0, 0, slice);
    let mut regs = Vec::new();
    for _ in 0..APIC_REG_COUNT {
        regs.push(0u32);
    }
    let mut apic = Apic::new(regs);
    let mut pit = Pit::new(0);

    let (used0, _) = mem.get_memory_utilization();
    let patches = init_smp(&mut mem, &mut apic, &mut pit, 1, 0x5000, 0xb000, 0xc000);
    assert_eq!(patches.len(), 5);
    assert_eq!(patches[3], (PATCH_STACK_BASE, KERNEL_AP_STACKS + AP_STACK_STRIDE - 1));
    assert_eq!(apic.read(Offset::InterruptCommandLow), 0xc4600);
    // the trampoline page is mapped at virtual zero for the copy
    assert_eq!(mem.translate(0), Some(0));
    let (used1, _) = mem.get_memory_utilization();
    assert_eq!(used1, used0 + 1024);

    init_smp_finish(&mut mem);
    assert_eq!(mem.translate(0), None);
    // the trampoline frame was never pool RAM, so nothing returns
    let (used2, _) = mem.get_memory_utilization();
    assert_eq!(used2, used1);
}

#[test]
fn ap_index_counter_hands_out_consecutive_indices() {
    let mut counter = 0u64;
    assert_eq!(next_ap_index(&mut counter), 0);
    assert_eq!(next_ap_index(&mut counter), 1);
    assert_eq!(counter, 2);
}

#[test]
fn startup_wait_spins_until_done_or_timeout() {
    assert!(startup_wait_keep_spinning(0, 3, 100));
    assert!(!startup_wait_keep_spinning(3, 3, 100));
    assert!(!startup_wait_keep_spinning(0, 3, 0));
}

#[test]
fn pic_remap_sequence_masks_everything() {
    let plan = remap_and_disable_pic(32, 40);
    assert_eq!(plan.len(), 18);
    assert_eq!(plan[4], (PIC1_DATA, 32));
    assert_eq!(plan[6], (PIC2_DATA, 40));
    assert_eq!(plan[16], (PIC1_DATA, 0xff));
    assert_eq!(plan[17], (PIC2_DATA, 0xff));
}

#[test]
fn timer_interrupt_dispatches_and_signals_eoi() {
    let mut regs = Vec::new();
    for _ in 0..APIC_REG_COUNT {
        regs.push(7u32);
    }
    let mut apic = Apic::new(regs);
    let mut cld = CoreLocalData::new(2);
    assert_eq!(timer_interrupt(&cld, &mut apic), None);
    cld.apic_timer_interrupt_function = Some(99);
    assert_eq!(timer_interrupt(&cld, &mut apic), Some(99));
    assert_eq!(apic.read(Offset::EndOfInterrupt), 0);
}

#[test]
fn read_line_collects_bytes_until_carriage_return() {
    let mut port = ReadPort::new(ComPort::COM2);
    port.receive(b'h');
    port.receive(b'i');
    port.receive(0xff); // non-ASCII bytes are dropped
    port.receive(b'!');
    port.receive(b'\r');
    port.receive(b'z');
    assert_eq!(port.read_line(), Ok(b"hi!".to_vec()));
    // bytes after the carriage return stay queued
    assert_eq!(port.read(), Ok(b'z'));
}

#[test]
fn acpi_counts_only_enabled_application_processors() {
    let procs = vec![
        ProcessorEntry { is_ap: false, disabled: false },
        ProcessorEntry { is_ap: true, disabled: false },
        ProcessorEntry { is_ap: true, disabled: true },
        ProcessorEntry { is_ap: true, disabled: false },
    ];
    let acpi = acpi_from_tables(0xfee0_0000, &procs);
    assert_eq!(acpi.ap_count, 2);
    assert_eq!(acpi.local_apic_addr, 0xfee0_0000);
}

#[test]
fn ap_entry_installs_core_data_and_calibrates() {
    let mut registry = steelmind_kernel::percore::CoreRegistry::new();
    let mut regs = Vec::new();
    for _ in 0..APIC_REG_COUNT {
        regs.push(0u32);
    }
    let mut apic = Apic::new(regs);
    apic.write(Offset::Id, 5 << 24);
    let mut barrier = Barrier::new(2);
    let mut done = 0u64;

    let leader = ap_entry(&mut registry, &mut apic, &mut barrier, &mut done, 0, 0xffff_ffff - 50);
    assert!(!leader);
    assert_eq!(done, 1);
    assert_eq!(apic.read(Offset::SpuriousInterruptVector), SPURIOUS_ENABLE);
    assert_eq!(registry.cpu_index(5), 1);
    assert_eq!(
        registry.try_get_cld(5).unwrap().apic_timer_ticks_per_second,
        Some(50 * 20)
    );
}

#[test]
fn framebuffer_pages_flip_to_write_combining() {
    let regions = vec![MemoryRegion { start: 0x100000, end: 0x200000, usable: true }];
    let mut slice = Vec::new();
    for i in 0..16u64 {
        slice.push(i);
    }
    let mut mem = Memory::new(&regions, 0, 0, slice);
    // the bootloader mapped the framebuffer in the dynamic window
    let fb_base = KERNEL_DYNAMIC_START;
    mem.map_ram_kernel(fb_base, FLAG_WRITABLE);
    mem.map_ram_kernel(fb_base + 4096, FLAG_WRITABLE);
    mem.set_frame_buffer_cache_to_write_combining(fb_base, 2 * 4096);
    // both pages stay mapped and carry the write-combining combination
    assert!(mem.translate(fb_base).is_some());
    assert!(mem.translate(fb_base + 4096).is_some());
    assert_eq!(mem.kernel_mapping_flags(fb_base), FLAGS_FRAMEBUFFER_WC);
    assert_eq!(mem.kernel_mapping_flags(fb_base + 4096), FLAGS_FRAMEBUFFER_WC);
}
