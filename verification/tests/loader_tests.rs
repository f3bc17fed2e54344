//! Preparing and running user programs on the memory model.

use steelmind_kernel::addr::{USER_STACK_SIZE, USER_STACK_START};
use steelmind_kernel::frames::MemoryRegion;
use steelmind_kernel::loader::{abort, begin_run, compute_segment_flags, free_application,
    prepare_application, run, user_entry_rsp, LoaderError, PF_R, PF_W, PF_X};
use steelmind_kernel::paging::{Memory, FLAG_NO_EXECUTE, FLAG_WRITABLE, KERNEL_SLICE_LEN};
use steelmind_kernel::percore::CoreLocalData;

fn push_u16(v: &mut Vec<u8>, x: u16) {
    v.push((x & 0xff) as u8);
    v.push((x >> 8) as u8);
}

fn push_u32(v: &mut Vec<u8>, x: u32) {
    push_u16(v, (x & 0xffff) as u16);
    push_u16(v, (x >> 16) as u16);
}

fn push_u64(v: &mut Vec<u8>, x: u64) {
    push_u32(v, (x & 0xffff_ffff) as u32);
    push_u32(v, (x >> 32) as u32);
}

/// A minimal ELF-64 little-endian executable: one loadable read-execute
/// segment of four file bytes and eight memory bytes at 0x201000.
fn tiny_elf(entry: u64) -> Vec<u8> {
    let mut v = Vec::new();
    v.extend_from_slice(&[0x7f, b'E', b'L', b'F', 2, 1, 1, 0, 0, 0, 0, 0, 0, 0, 0, 0]);
    push_u16(&mut v, 2); // ET_EXEC
    push_u16(&mut v, 0x3e); // x86_64
    push_u32(&mut v, 1);
    push_u64(&mut v, entry);
    push_u64(&mut v, 64); // program header offset
    push_u64(&mut v, 0); // no section headers
    push_u32(&mut v, 0);
    push_u16(&mut v, 64);
    push_u16(&mut v, 56);
    push_u16(&mut v, 1);
    push_u16(&mut v, 0);
    push_u16(&mut v, 0);
    push_u16(&mut v, 0);
    // one PT_LOAD program header
    push_u32(&mut v, 1);
    push_u32(&mut v, PF_R | PF_X);
    push_u64(&mut v, 120); // file offset of the segment bytes
    push_u64(&mut v, 0x201000); // virtual address
    push_u64(&mut v, 0x201000);
    push_u64(&mut v, 4); // file size
    push_u64(&mut v, 8); // memory size
    push_u64(&mut v, 0x1000);
    v.extend_from_slice(&[0xde, 0xad, 0xbe, 0xef]);
    v
}

fn big_memory() -> Memory {
    let regions = vec![MemoryRegion { start: 0x100000, end: 0x2200000, usable: true }];
    let mut slice = Vec::new();
    let mut i = 0;
    while i < KERNEL_SLICE_LEN {
        slice.push(0x9000 + i as u64);
        i += 1;
    }
    Memory::new(&regions, 0, 0, slice)
}

#[test]
fn segment_flags_follow_elf_permissions() {
    assert_eq!(compute_segment_flags(PF_R), FLAG_NO_EXECUTE);
    assert_eq!(compute_segment_flags(PF_R | PF_X), 0);
    assert_eq!(compute_segment_flags(PF_R | PF_W), FLAG_NO_EXECUTE | FLAG_WRITABLE);
    assert_eq!(
        compute_segment_flags(PF_R | PF_W | PF_X),
        FLAG_NO_EXECUTE | FLAG_WRITABLE
    );
}

#[test]
fn prepare_rejects_malformed_image() {
    let mut mem = big_memory();
    let r = prepare_application(&mut mem, b"not an elf image");
    assert_eq!(r.err(), Some(LoaderError::BadImage));
}

#[test]
fn prepare_builds_a_full_address_space() {
    let mut mem = big_memory();
    let elf = tiny_elf(0x201000);
    let res = prepare_application(&mut mem, &elf).unwrap();
    assert_eq!(res.address_space, 0);
    assert_eq!(res.entry_point_virt_addr, 0x201000);
    assert_eq!(res.heap.total_bytes, 0);

    mem.switch_to_user_page_table(res.address_space);
    // the segment page is mapped
    assert!(mem.translate(0x201000).is_some());
    // the guard page is not; the first stack page is
    assert_eq!(mem.translate(USER_STACK_START), None);
    assert!(mem.translate(USER_STACK_START + 4096).is_some());
    assert!(mem.translate(USER_STACK_START + USER_STACK_SIZE - 4096).is_some());
}

#[test]
fn prepare_twice_gives_independent_spaces() {
    let mut mem = big_memory();
    let elf = tiny_elf(0x201000);
    let a = prepare_application(&mut mem, &elf).unwrap();
    let b = prepare_application(&mut mem, &elf).unwrap();
    assert_ne!(a.address_space, b.address_space);

    mem.switch_to_user_page_table(a.address_space);
    mem.write_u64(0x201000, 7);
    mem.switch_to_user_page_table(b.address_space);
    mem.write_u64(0x201000, 9);
    mem.switch_to_user_page_table(a.address_space);
    assert_eq!(mem.read_u64(0x201000), 7);
}

#[test]
fn run_clears_the_record_and_reports_the_exit_code() {
    let mut mem = big_memory();
    let elf = tiny_elf(0x201000);
    let res = prepare_application(&mut mem, &elf).unwrap();
    let mut cld = CoreLocalData::new(0);
    let rsp = 0xdead_0000;
    let re_entry = 0x4000_1000;

    // the program returns 0 on its first call and aborts with 42 on the
    // second; the machine-level execution hands the code back
    assert_eq!(run(&mut mem, &mut cld, &res, rsp, re_entry, 0), 0);
    assert!(cld.running_application_data.is_none());
    assert_eq!(run(&mut mem, &mut cld, &res, rsp, re_entry, 42), 42);
    assert!(cld.running_application_data.is_none());
}

#[test]
fn abort_reads_the_saved_re_entry_state() {
    let mut cld = CoreLocalData::new(3);
    begin_run(&mut cld, 5, 0x1111, 0x2222);
    let (target, saved) = abort(&cld);
    assert_eq!(target, 0x2222);
    assert_eq!(saved, 0x1111);
}

#[test]
fn user_stack_entry_pointer() {
    assert_eq!(user_entry_rsp(), USER_STACK_START + USER_STACK_SIZE - 1024);
}

#[test]
fn free_application_restores_the_kernel_space() {
    let mut mem = big_memory();
    let elf = tiny_elf(0x201000);
    let res = prepare_application(&mut mem, &elf).unwrap();
    let (used_before, _) = mem.get_memory_utilization();
    free_application(&mut mem, res);
    // the release path reactivates the kernel table; frames stay owned
    let (used_after, _) = mem.get_memory_utilization();
    assert_eq!(used_after, used_before);
    assert_eq!(mem.translate(0x201000), None);
}
