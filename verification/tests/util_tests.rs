//! Tests of the bit and hex helpers and of error messages.

use custom_pc::utils::bit::{bit, set_bit, sign_extend};
use custom_pc::utils::hex::{hex16, hex8, hex_dump};
use custom_pc::EmulatorError;

#[test]
fn bit_reads_one_bit() {
    assert!(bit(0b1010, 1));
    assert!(!bit(0b1010, 2));
    assert!(bit(0x8000, 15));
}

#[test]
fn set_bit_sets_and_clears() {
    assert_eq!(set_bit(0, 3, true), 8);
    assert_eq!(set_bit(0xFFFF, 0, false), 0xFFFE);
    assert_eq!(set_bit(8, 3, true), 8);
    assert_eq!(set_bit(0, 15, false), 0);
}

#[test]
fn sign_extend_widths() {
    assert_eq!(sign_extend(0xFF, 8), -1);
    assert_eq!(sign_extend(0x7F, 8), 127);
    assert_eq!(sign_extend(0x80, 8), -128);
    assert_eq!(sign_extend(0xFFFF, 16), -1);
    assert_eq!(sign_extend(0x1F, 4), -1);
    assert_eq!(sign_extend(0x8000, 20), -32768);
    assert_eq!(sign_extend(1, 1), -1);
}

#[test]
fn hex_formats() {
    assert_eq!(hex16(0x2A), "002A");
    assert_eq!(hex16(0xBEEF), "BEEF");
    assert_eq!(hex8(0x0F), "0F");
    assert_eq!(hex8(0xFF), "FF");
}

#[test]
fn hex_dump_rows() {
    let data: Vec<u8> = (0u8..20).map(|b| b + 0x3E).collect();
    let out = hex_dump(&data, 0x0100);
    let mut expected = String::new();
    expected.push_str("0100  3E 3F 40 41 42 43 44 45  46 47 48 49 4A 4B 4C 4D  |>?@ABCDEFGHIJKLM|\n");
    expected.push_str("0110  4E 4F 50 51                                       |NOPQ|\n");
    assert_eq!(out, expected);
}

#[test]
fn hex_dump_shows_dots_for_unprintable() {
    let out = hex_dump(&[0x00, 0x20, 0x7F], 0);
    assert_eq!(out, "0000  00 20 7F                                          |. .|\n");
    assert_eq!(hex_dump(&[], 0), "");
}

#[test]
fn error_messages() {
    assert_eq!(EmulatorError::InvalidOpcode(0xFF).message(), "invalid opcode 0xFF");
    assert_eq!(EmulatorError::IllegalMemoryAccess(0xFFFF).message(), "illegal memory access at 0xFFFF");
    assert_eq!(EmulatorError::IllegalIoPort(0x12).message(), "unknown I/O port 0x0012");
    assert_eq!(EmulatorError::StackOverflow.message(), "stack overflow");
    assert_eq!(EmulatorError::StackUnderflow.message(), "stack underflow");
    assert_eq!(EmulatorError::Halted.message(), "CPU halted");
}
