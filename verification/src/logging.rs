//! Logging configuration.
//!
//! Log records go to two sinks - the serial port and the framebuffer
//! terminal - each with its own runtime-settable level. The formatting and
//! the sink I/O live outside the library; the level filtering and the
//! per-level colouring are decided here.

use vstd::prelude::*;

use crate::terminal::Color;

verus! {

/// The severity of a log record, most severe first.
#[derive(Debug, Clone, Copy, PartialEq, Eq, Structural)]
pub enum LogLevel {
    Error,
    Warn,
    Info,
    Debug,
    Trace,
}

/// A sink's threshold: off, or everything up to a severity.
#[derive(Debug, Clone, Copy, PartialEq, Eq, Structural)]
pub enum LevelFilter {
    Off,
    Error,
    Warn,
    Info,
    Debug,
    Trace,
}

/// The numeric rank of a severity (more severe is smaller).
pub open spec fn spec_level_rank(l: LogLevel) -> int {
    match l {
        LogLevel::Error => 1,
        LogLevel::Warn => 2,
        LogLevel::Info => 3,
        LogLevel::Debug => 4,
        LogLevel::Trace => 5,
    }
}

/// The numeric rank of a filter (0 admits nothing).
pub open spec fn spec_filter_rank(f: LevelFilter) -> int {
    match f {
        LevelFilter::Off => 0,
        LevelFilter::Error => 1,
        LevelFilter::Warn => 2,
        LevelFilter::Info => 3,
        LevelFilter::Debug => 4,
        LevelFilter::Trace => 5,
    }
}

/// The two sinks' thresholds.
#[derive(Clone, Copy, PartialEq, Eq, Structural)]
pub struct LogSettings {
    /// Threshold of the serial sink.
    pub serial_level: LevelFilter,
    /// Threshold of the framebuffer sink.
    pub graphics_level: LevelFilter,
}

/// Initial settings with the given thresholds; installing the global
/// logger that consults them is runtime plumbing outside the library.
pub fn init_logging(serial_level: LevelFilter, graphics_level: LevelFilter) -> (r: LogSettings)
    ensures
        r.serial_level == serial_level,
        r.graphics_level == graphics_level,
{
    let mut s = LogSettings { serial_level: LevelFilter::Off, graphics_level: LevelFilter::Off };
    set_serial_log_level(&mut s, serial_level);
    set_graphics_log_level(&mut s, graphics_level);
    s
}

/// Sets the serial sink's threshold.
pub fn set_serial_log_level(s: &mut LogSettings, level: LevelFilter)
    ensures
        final(s).serial_level == level,
        final(s).graphics_level == old(s).graphics_level,
{
    s.serial_level = level;
}

/// Sets the framebuffer sink's threshold.
pub fn set_graphics_log_level(s: &mut LogSettings, level: LevelFilter)
    ensures
        final(s).graphics_level == level,
        final(s).serial_level == old(s).serial_level,
{
    s.graphics_level = level;
}

/// Whether a record of severity `level` passes a sink threshold.
pub fn should_log(level: LogLevel, filter: LevelFilter) -> (r: bool)
    ensures
        r == (spec_level_rank(level) <= spec_filter_rank(filter)),
{
    let lr: u8 = match level {
        LogLevel::Error => 1,
        LogLevel::Warn => 2,
        LogLevel::Info => 3,
        LogLevel::Debug => 4,
        LogLevel::Trace => 5,
    };
    let fr: u8 = match filter {
        LevelFilter::Off => 0,
        LevelFilter::Error => 1,
        LevelFilter::Warn => 2,
        LevelFilter::Info => 3,
        LevelFilter::Debug => 4,
        LevelFilter::Trace => 5,
    };
    lr <= fr
}

/// The colour a record's severity tag is rendered in.
pub fn level_color(level: LogLevel) -> (r: Color)
    ensures
        level == LogLevel::Error ==> r == (Color { r: 255u8, g: 50u8, b: 50u8 }),
        level == LogLevel::Warn ==> r == (Color { r: 255u8, g: 200u8, b: 0u8 }),
        level == LogLevel::Info ==> r == (Color { r: 220u8, g: 220u8, b: 220u8 }),
        level == LogLevel::Debug ==> r == (Color { r: 0u8, g: 40u8, b: 255u8 }),
        level == LogLevel::Trace ==> r == (Color { r: 130u8, g: 130u8, b: 130u8 }),
{
    match level {
        LogLevel::Error => Color::new(255, 50, 50),
        LogLevel::Warn => Color::new(255, 200, 0),
        LogLevel::Info => Color::new(220, 220, 220),
        LogLevel::Debug => Color::new(0, 40, 255),
        LogLevel::Trace => Color::new(130, 130, 130),
    }
}

} // verus!
