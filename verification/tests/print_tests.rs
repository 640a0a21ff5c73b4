use libkernel::board::board_name;
use libkernel::colorize::Color;
use libkernel::memory::{heap_size, mmio_address, mmio_map};
use libkernel::print::{
    driver_error_message, driver_line, log_color, log_line, log_message, log_prefix, print_payload,
    LogLevel,
};
use libkernel::text::{decimal_string, text_eq};
use libkernel::version;

#[test]
fn print_appends_reset() {
    assert_eq!(print_payload("hello"), "hello\u{1b}[0m");
    assert_eq!(print_payload(""), "\u{1b}[0m");
}

#[test]
fn log_line_format() {
    assert_eq!(log_line(" ", 5, 42, Color::Reset, "booted"), "[    5.000042] \u{1b}[0mbooted\n");
    assert_eq!(log_line("D", 1234, 999999, Color::Red, "x"), "[D 1234.999999] \u{1b}[31mx\n");
}

#[test]
fn log_levels() {
    assert_eq!(log_prefix(LogLevel::Info, false), " ");
    assert_eq!(log_prefix(LogLevel::Warn, false), "W");
    assert_eq!(log_prefix(LogLevel::Warn, true), " ");
    assert_eq!(log_prefix(LogLevel::Debug, true), "D");
    assert_eq!(log_color(LogLevel::Warn), Color::Yellow);
    assert_eq!(log_color(LogLevel::Debug), Color::TrueColor { r: 128, g: 128, b: 128 });
    assert_eq!(
        log_message(LogLevel::Debug, false, 0, 7, "d"),
        "[D   0.000007] \u{1b}[38;2;128;128;128md\n\u{1b}[0m"
    );
}

#[test]
fn version_string() {
    assert_eq!(version("libkernel", "0.1.0"), "libkernel version 0.1.0");
}

#[test]
fn driver_messages() {
    assert_eq!(driver_line(0, "BCM PL011 UART"), "      1. BCM PL011 UART");
    assert_eq!(driver_line(9, "GPIO"), "      10. GPIO");
    assert_eq!(driver_error_message("GPIO", "busy"), "Error loading driver: GPIO: busy");
}

#[test]
fn board_names() {
    assert_eq!(board_name(true, false), "Raspberry Pi 3");
    assert_eq!(board_name(false, true), "Raspberry Pi 4");
    assert_eq!(board_name(true, true), "Raspberry Pi 3");
    assert_eq!(board_name(false, false), "Unknown");
}

#[test]
fn decimal_rendering() {
    assert_eq!(decimal_string(0), "0");
    assert_eq!(decimal_string(10), "10");
    assert_eq!(decimal_string(u64::MAX), "18446744073709551615");
    assert!(text_eq("abc", "abc"));
    assert!(!text_eq("abc", "abd"));
    assert!(!text_eq("ab", "abc"));
}

#[test]
fn memory_addresses() {
    assert_eq!(heap_size(0x1000, 0x3000), 0x2000);
    assert_eq!(heap_size(5, 5), 0);
    assert_eq!(mmio_address(0x20_1000), 0x3F20_1000);
    let m3 = mmio_map(false);
    assert_eq!(m3.start, 0x3F00_0000);
    assert_eq!(m3.mbox_status, 0x3F00_B898);
    assert_eq!(m3.mbox_write, 0x3F00_B8A0);
    let m4 = mmio_map(true);
    assert_eq!(m4.pl011_uart_start, 0xFE20_1000);
    assert_eq!(m4.end_inclusive, 0xFF84_FFFF);
}
