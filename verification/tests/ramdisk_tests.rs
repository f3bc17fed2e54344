//! RAM-disk container round trips and the soundness check.

use steelmind_kernel::ramdisk::{assert_soundness, get_file_count, get_file_slice, read_u64_le,
    write_u64_le, Image};

fn build_three_file_container() -> Vec<u8> {
    let mut img = Image::new();
    img.add_file(b"hello");
    img.add_file(b"worlds!");
    img.add_string("third file");
    img.build()
}

#[test]
fn container_round_trip() {
    let d = build_three_file_container();
    assert_eq!(get_file_count(&d), 3);
    assert_eq!(get_file_slice(&d, 0), b"hello".to_vec());
    assert_eq!(get_file_slice(&d, 1), b"worlds!".to_vec());
    assert_eq!(get_file_slice(&d, 2), b"third file".to_vec());
}

#[test]
fn container_header_layout() {
    let d = build_three_file_container();
    // total length, file count, region ends at their fixed offsets
    assert_eq!(read_u64_le(&d, 0), d.len() as u64);
    assert_eq!(read_u64_le(&d, 16), 3);
    assert_eq!(read_u64_le(&d, 24), 5);
    assert_eq!(read_u64_le(&d, 32), 12);
    assert_eq!(read_u64_le(&d, 40), 22);
}

#[test]
fn soundness_accepts_built_container() {
    let d = build_three_file_container();
    assert!(assert_soundness(&d, d.len() as u64));
}

#[test]
fn soundness_rejects_flipped_payload_byte() {
    let mut d = build_three_file_container();
    let last = d.len() - 1;
    d[last] ^= 0x01;
    assert!(!assert_soundness(&d, d.len() as u64));
}

#[test]
fn soundness_rejects_flipped_offset_byte() {
    let mut d = build_three_file_container();
    d[24] ^= 0x40;
    assert!(!assert_soundness(&d, d.len() as u64));
}

#[test]
fn soundness_rejects_wrong_reported_length() {
    let d = build_three_file_container();
    assert!(!assert_soundness(&d, d.len() as u64 + 1));
}

#[test]
fn soundness_rejects_short_container() {
    let d = vec![0u8; 32];
    assert!(!assert_soundness(&d, 32));
}

#[test]
fn single_file_container() {
    let mut img = Image::new();
    img.add_string("x");
    let d = img.build();
    assert_eq!(d.len(), 24 + 8 + 1);
    assert_eq!(get_file_count(&d), 1);
    assert_eq!(get_file_slice(&d, 0), b"x".to_vec());
    assert!(assert_soundness(&d, d.len() as u64));
}

#[test]
fn le64_round_trip() {
    let mut out: Vec<u8> = Vec::new();
    write_u64_le(&mut out, 0x0123_4567_89ab_cdef);
    write_u64_le(&mut out, u64::MAX);
    write_u64_le(&mut out, 0);
    assert_eq!(out.len(), 24);
    assert_eq!(read_u64_le(&out, 0), 0x0123_4567_89ab_cdef);
    assert_eq!(read_u64_le(&out, 8), u64::MAX);
    assert_eq!(read_u64_le(&out, 16), 0);
    assert_eq!(out[0], 0xef);
    assert_eq!(out[7], 0x01);
}
