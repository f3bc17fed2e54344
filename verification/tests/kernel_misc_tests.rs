//! Address layout, heap growth, per-core data, logging, terminal output,
//! and the test-runner exit protocol.

use steelmind_kernel::addr::{build_addr, split_addr, KERNEL_HEAP_START, KERNEL_START, USER_END,
    USER_HEAP_START, USER_STACK_START};
use steelmind_kernel::frames::MemoryRegion;
use steelmind_kernel::heap::{create_kernel_heap, create_user_heap, grow_user_heap, heap_growth,
    next_pow2};
use steelmind_kernel::logging::{init_logging, level_color, set_graphics_log_level,
    set_serial_log_level, should_log, LevelFilter, LogLevel};
use steelmind_kernel::paging::Memory;
use steelmind_kernel::percore::{CoreLocalData, CoreRegistry};
use steelmind_kernel::terminal::{switch_to_double_buffer, push_to_frame_buffer, window_for_core,
    Color, FbInfo, FontSize, PixelFormat, TerminalWriter, WindowInfo};
use steelmind_kernel::tester::{exit_port_value, host_observed_status, QemuExitCode, Tester,
    HOST_SUCCESS_STATUS};

#[test]
fn addresses_assemble_and_split() {
    assert_eq!(build_addr(100, 0, 0, 0, 0), KERNEL_START);
    assert_eq!(build_addr(108, 0, 0, 0, 0), KERNEL_HEAP_START);
    assert_eq!(build_addr(0, 4, 0, 0, 0), USER_STACK_START);
    assert_eq!(build_addr(0, 8, 0, 0, 0), USER_HEAP_START);
    assert_eq!(build_addr(1, 0, 0, 0, 0), USER_END);
    let a = build_addr(100, 5, 7, 9, 11);
    assert_eq!(split_addr(a), (100, 5, 7, 9, 11));
}

#[test]
fn next_pow2_rounds_up() {
    assert_eq!(next_pow2(0), 1);
    assert_eq!(next_pow2(1), 1);
    assert_eq!(next_pow2(2), 2);
    assert_eq!(next_pow2(100), 128);
    assert_eq!(next_pow2(4096), 4096);
}

#[test]
fn heap_growth_doubles_or_rounds_to_power_of_two() {
    let (min_add, new_total) = heap_growth(0, 8, 100);
    assert_eq!(min_add, 128);
    assert_eq!(new_total, 256);
    let (min_add2, new_total2) = heap_growth(256, 8, 100);
    assert_eq!(min_add2, 128);
    assert_eq!(new_total2, 512);
    assert_eq!(create_user_heap().base, USER_HEAP_START);
    assert_eq!(create_kernel_heap().base, KERNEL_HEAP_START);
}

#[test]
fn user_heap_growth_maps_fresh_pages() {
    let regions = vec![MemoryRegion { start: 0x100000, end: 0x200000, usable: true }];
    let mut slice = Vec::new();
    let mut i = 0u64;
    while i < 16 {
        slice.push(i);
        i += 1;
    }
    let mut mem = Memory::new(&regions, 0, 0, slice);
    let h = mem.create_user_page_table();
    mem.switch_to_user_page_table(h);
    let mut heap = create_user_heap();
    grow_user_heap(&mut mem, &mut heap, 8, 10_000);
    assert!(heap.total_bytes >= 10_000);
    assert_eq!(heap.total_bytes % 4096, 0);
    assert!(mem.translate(USER_HEAP_START).is_some());
}

#[test]
fn core_registry_is_write_once() {
    let mut reg = CoreRegistry::new();
    assert!(reg.try_get_cld(9).is_none());
    reg.initialize_own_core_local_data(9, CoreLocalData::new(1));
    assert_eq!(reg.cpu_index(9), 1);
    // a second initialization leaves the first data in place
    reg.initialize_own_core_local_data(9, CoreLocalData::new(7));
    assert_eq!(reg.cpu_index(9), 1);
    let cld = reg.get_cld(9);
    cld.apic_timer_ticks_per_second = Some(20_000_000);
    assert_eq!(reg.try_get_cld(9).unwrap().apic_timer_ticks_per_second, Some(20_000_000));
}

#[test]
fn log_levels_filter_by_severity() {
    let mut s = init_logging(LevelFilter::Info, LevelFilter::Off);
    assert_eq!(s.serial_level, LevelFilter::Info);
    assert!(should_log(LogLevel::Error, s.serial_level));
    assert!(should_log(LogLevel::Info, s.serial_level));
    assert!(!should_log(LogLevel::Debug, s.serial_level));
    assert!(!should_log(LogLevel::Error, s.graphics_level));
    set_serial_log_level(&mut s, LevelFilter::Trace);
    set_graphics_log_level(&mut s, LevelFilter::Error);
    assert!(should_log(LogLevel::Trace, s.serial_level));
    assert!(!should_log(LogLevel::Warn, s.graphics_level));
    assert_eq!(level_color(LogLevel::Error), Color::new(255, 50, 50));
    assert_eq!(level_color(LogLevel::Trace), Color::new(130, 130, 130));
}

#[test]
fn tester_counts_and_exit_codes() {
    let mut t = Tester::new(3);
    t.start_test();
    t.start_test();
    assert_eq!(exit_port_value(QemuExitCode::Success), 0x10);
    assert_eq!(exit_port_value(QemuExitCode::Failed), 0x11);
    assert_eq!(host_observed_status(QemuExitCode::Success), HOST_SUCCESS_STATUS);
    assert_eq!(host_observed_status(QemuExitCode::Success), 33);
    assert_eq!(host_observed_status(QemuExitCode::Failed), 35);
}

#[test]
fn color_lerp_blends_towards_target() {
    let black = Color::black();
    let white = Color::white();
    assert_eq!(black.lerp(white, 0), black);
    assert_eq!(black.lerp(white, 1024), white);
    assert_eq!(black.lerp(white, 512), Color::new(127, 127, 127));
    assert_eq!(white.lerp(black, 1024), black);
    assert_eq!(Color::new(100, 0, 0).lerp(Color::new(0, 0, 0), 512), Color::new(50, 0, 0));
}

fn test_fb() -> FbInfo {
    FbInfo {
        width: 640,
        height: 480,
        stride: 672,
        bytes_per_pixel: 4,
        byte_len: 672 * 480 * 4,
        pixel_format: PixelFormat::Bgr,
    }
}

#[test]
fn window_geometry() {
    let fb = test_fb();
    let w = WindowInfo::new(10, 20, 100, 50, &fb);
    assert_eq!(w.byte_offset, (20 * 672 + 10) * 4);
    assert_eq!(w.width, 100);
    assert_eq!(w.height, 50);
    let per_core = window_for_core(1, 4, &fb);
    assert_eq!(per_core.width, 640 / 4);
    assert_eq!(per_core.byte_offset, (640 / 4) * 4);
}

fn test_window() -> WindowInfo {
    WindowInfo {
        byte_offset: 0,
        width: 320,
        height: 240,
        pixel_format: PixelFormat::Bgr,
        bytes_per_pixel: 4,
        stride: 320,
    }
}

#[test]
fn terminal_pixels_land_in_the_buffer() {
    let mut t = TerminalWriter::new(test_window());
    t.write_pixel(2, 1, Color::new(10, 20, 30));
    let off = (320 + 2) * 4;
    // BGR order
    assert_eq!(t.buffer[off], 30);
    assert_eq!(t.buffer[off + 1], 20);
    assert_eq!(t.buffer[off + 2], 10);
}

#[test]
fn terminal_clear_fills_with_clear_color() {
    let mut t = TerminalWriter::new(test_window());
    t.clear_color = Color::new(1, 2, 3);
    t.clear(Some(FontSize::Size16));
    assert_eq!(t.line_height, 16);
    let off = (100 * 320 + 100) * 4;
    assert_eq!(t.buffer[off], 3);
    assert_eq!(t.buffer[off + 1], 2);
    assert_eq!(t.buffer[off + 2], 1);
}

#[test]
fn terminal_renders_a_glyph() {
    let mut t = TerminalWriter::new(test_window());
    t.foreground = Color::white();
    t.background = Color::black();
    t.clear(None);
    let before = t.buffer.clone();
    t.write_char('A');
    // the rasterizer produced intensities, so some pixel changed
    assert_ne!(t.buffer, before);
    assert!(t.x_pos > 0);
}

#[test]
fn terminal_newline_moves_and_wraps() {
    let mut t = TerminalWriter::new(test_window());
    let lh = t.line_height;
    t.write_char('\n');
    assert_eq!(t.y_pos, lh);
    assert_eq!(t.x_pos, 0);
}

#[test]
fn double_buffer_swap_copies_visible_rows() {
    let fb = FbInfo {
        width: 4,
        height: 64,
        stride: 6,
        bytes_per_pixel: 1,
        byte_len: 6 * 64,
        pixel_format: PixelFormat::Grayscale,
    };
    let mut back = switch_to_double_buffer(&fb);
    assert_eq!(back.len(), 6 * 64);
    back[0] = 11;
    back[6] = 22;
    back[5] = 99; // padding byte, not copied
    let mut front = vec![0u8; 6 * 64];
    push_to_frame_buffer(&back, &mut front, &fb);
    assert_eq!(front[0], 11);
    assert_eq!(front[6], 22);
    assert_eq!(front[5], 0);
}
