//! Tests of the I/O devices.

use custom_pc::devices::disk::{Disk, PORT_CMD, PORT_DATA, PORT_SECTOR_HI, PORT_SECTOR_LO, PORT_STATUS};
use custom_pc::devices::keyboard::{Keyboard, PORT_KB_DATA, PORT_KB_STATUS};
use custom_pc::devices::serial::{Serial, PORT_RX, PORT_STATUS as SERIAL_STATUS, PORT_TX};
use custom_pc::devices::timer::{Timer, PORT_CONTROL, PORT_COUNTER, PORT_PERIOD};

#[test]
fn keyboard_is_fifo() {
    let mut kb = Keyboard::new();
    assert_eq!(kb.io_read(PORT_KB_STATUS), Some(0));
    assert_eq!(kb.io_read(PORT_KB_DATA), Some(0));
    kb.push_key(b'a');
    kb.push_key(b'b');
    assert_eq!(kb.io_read(PORT_KB_STATUS), Some(1));
    assert_eq!(kb.io_read(PORT_KB_DATA), Some(b'a' as u16));
    assert_eq!(kb.io_read(PORT_KB_DATA), Some(b'b' as u16));
    assert_eq!(kb.io_read(PORT_KB_STATUS), Some(0));
    assert_eq!(kb.io_read(0x99), None);
}

#[test]
fn serial_transmits_and_receives() {
    let mut s = Serial::new();
    assert_eq!(s.io_read(SERIAL_STATUS), Some(2));
    assert_eq!(s.io_read(PORT_RX), Some(0xFF));
    s.feed_rx(&[7, 8]);
    assert_eq!(s.io_read(SERIAL_STATUS), Some(3));
    assert_eq!(s.io_read(PORT_RX), Some(7));
    assert_eq!(s.io_read(PORT_RX), Some(8));
    assert!(s.io_write(PORT_TX, 0x1241));
    assert!(s.io_write(PORT_TX, 0x42));
    assert!(!s.io_write(PORT_RX, 1));
    assert_eq!(s.drain_tx(), vec![0x41, 0x42]);
    assert_eq!(s.drain_tx(), Vec::<u8>::new());
    assert_eq!(s.io_read(0x99), None);
}

#[test]
fn timer_counts_down_and_reloads() {
    let mut t = Timer::new();
    t.tick();
    assert_eq!(t.io_read(PORT_COUNTER), Some(0));
    assert!(t.io_write(PORT_PERIOD, 3));
    assert!(t.io_write(PORT_COUNTER, 2));
    assert!(t.io_write(PORT_CONTROL, 0b11));
    assert_eq!(t.io_read(PORT_CONTROL), Some(3));
    t.tick();
    assert_eq!(t.io_read(PORT_COUNTER), Some(1));
    t.tick();
    assert_eq!(t.io_read(PORT_COUNTER), Some(0));
    assert!(!t.fired);
    t.tick();
    assert_eq!(t.io_read(PORT_COUNTER), Some(3));
    assert!(t.fired);
    assert!(!t.io_write(0x99, 1));
    assert_eq!(t.io_read(PORT_PERIOD), Some(3));
}

#[test]
fn timer_control_reads_back_low_bits() {
    let mut t = Timer::new();
    t.io_write(PORT_CONTROL, 0xFFFE);
    assert_eq!(t.io_read(PORT_CONTROL), Some(2));
}

#[test]
fn disk_sector_round_trip() {
    let mut d = Disk::new(4);
    assert!(d.io_write(PORT_SECTOR_LO, 2));
    assert!(d.io_write(PORT_SECTOR_HI, 0));
    assert!(d.io_write(PORT_CMD, 2));
    for i in 0..512u16 {
        assert!(d.io_write(PORT_DATA, i));
    }
    assert!(d.io_write(PORT_CMD, 1));
    assert_eq!(d.io_read(PORT_STATUS), Some(1));
    // Clobber the buffer through sector 0, then read sector 2 back.
    assert!(d.io_write(PORT_SECTOR_LO, 0));
    assert!(d.io_write(PORT_CMD, 0));
    assert_eq!(d.io_read(PORT_DATA), Some(0));
    assert!(d.io_write(PORT_SECTOR_LO, 2));
    assert!(d.io_write(PORT_CMD, 0));
    for i in 0..512u16 {
        assert_eq!(d.io_read(PORT_DATA), Some(i & 0xFF));
    }
    assert_eq!(d.io_read(PORT_DATA), Some(0xFF));
    assert_eq!(d.io_read(PORT_SECTOR_LO), Some(2));
}

#[test]
fn disk_out_of_range_sets_error() {
    let mut d = Disk::new(1);
    d.io_write(PORT_SECTOR_LO, 1);
    d.io_write(PORT_CMD, 0);
    assert_eq!(d.io_read(PORT_STATUS), Some(3));
    d.io_write(PORT_SECTOR_LO, 0);
    d.io_write(PORT_CMD, 0);
    assert_eq!(d.io_read(PORT_STATUS), Some(1));
    d.io_write(PORT_CMD, 7);
    assert_eq!(d.io_read(PORT_STATUS), Some(3));
    assert_eq!(d.io_read(0x99), None);
    assert!(!d.io_write(0x99, 0));
}

#[test]
fn disk_data_stream_round_trip() {
    let mut d = Disk::new(4);
    let data: Vec<u8> = (0..512u32).map(|i| (i * 7 % 256) as u8).collect();
    assert!(d.io_write(0x41, 2));
    assert!(d.io_write(0x42, 0));
    assert!(d.io_write(0x40, 2));
    for &b in &data {
        assert!(d.io_write(0x43, b as u16));
    }
    assert!(d.io_write(0x40, 1));
    assert!(d.io_write(0x40, 0));
    for &b in &data {
        assert_eq!(d.io_read(0x43), Some(b as u16));
    }
    assert_eq!(d.io_read(0x43), Some(0xFF));
    assert_eq!(d.io_read(0x44), Some(1));
}

#[test]
fn serial_drain_after_writes() {
    let mut s = Serial::new();
    assert!(s.io_write(0x20, 0x141));
    assert!(s.io_write(0x20, 0x42));
    assert!(!s.io_write(0x21, 0x43));
    assert_eq!(s.drain_tx(), vec![0x41, 0x42]);
    assert_eq!(s.drain_tx(), Vec::<u8>::new());
}

#[test]
fn dump_text_is_twenty_five_lines_of_eighty() {
    let mut mem = vec![0u8; 0x10000];
    mem[0xC000] = b'H';
    mem[0xC002] = b'i';
    mem[0xC000 + 2 * 80] = b'!';
    let text = custom_pc::devices::display::Display::dump_text(&mem);
    let lines: Vec<&str> = text.split_terminator('\n').collect();
    assert_eq!(lines.len(), 25);
    assert!(lines.iter().all(|l| l.chars().count() == 80));
    assert!(lines[0].starts_with("Hi "));
    assert!(lines[1].starts_with("! "));
    assert!(text.ends_with('\n'));
}
