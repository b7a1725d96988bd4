//! Tests of the Intel HEX conversion and of ROM building.

use custom_pc::image::{bin_to_ihex, blank_rom, ihex_to_bin, place_segment, trim_rom, ROM_SIZE};

#[test]
fn ihex_of_three_bytes() {
    assert_eq!(bin_to_ihex(&[1, 2, 3]), ":03000000010203F7\n:00000001FF\n");
}

#[test]
fn ihex_of_nothing_is_only_eof() {
    assert_eq!(bin_to_ihex(&[]), ":00000001FF\n");
}

#[test]
fn ihex_splits_into_sixteen_byte_records() {
    let data: Vec<u8> = (0u8..20).collect();
    let text = bin_to_ihex(&data);
    let lines: Vec<&str> = text.lines().collect();
    assert_eq!(lines.len(), 3);
    assert_eq!(lines[0], ":10000000000102030405060708090A0B0C0D0E0F78");
    assert_eq!(lines[1], ":0400100010111213A6");
    assert_eq!(lines[2], ":00000001FF");
}

#[test]
fn ihex_reads_back_three_bytes() {
    assert_eq!(ihex_to_bin(":03000000010203F7\n:00000001FF\n"), vec![1, 2, 3]);
}

#[test]
fn ihex_places_records_at_their_address() {
    let image = ihex_to_bin(":02001000AABB89\n:00000001FF\n");
    assert_eq!(image.len(), 0x12);
    assert!(image[..0x10].iter().all(|&b| b == 0));
    assert_eq!(&image[0x10..], &[0xAA, 0xBB]);
}

#[test]
fn ihex_skips_other_lines_and_stops_at_eof() {
    let text = "garbage\n  :0100000042BD  \n:02000004FFFFFC\n:00000001FF\n:0100050011E9\n";
    assert_eq!(ihex_to_bin(text), vec![0x42]);
}

#[test]
fn ihex_round_trip() {
    let data: Vec<u8> = (0u8..40).map(|x| x.wrapping_mul(7)).collect();
    assert_eq!(ihex_to_bin(&bin_to_ihex(&data)), data);
}

#[test]
fn rom_segments_and_trim() {
    let mut image = blank_rom();
    assert_eq!(image.len(), ROM_SIZE);
    place_segment(&mut image, 0x0002, &[1, 2]);
    place_segment(&mut image, 0x0010, &[3, 0, 0]);
    let out = trim_rom(&image);
    assert_eq!(out.len(), 0x11);
    assert_eq!(&out[..4], &[0, 0, 1, 2]);
    assert_eq!(out[0x10], 3);
}

#[test]
fn rom_segment_is_cut_at_the_end() {
    let mut image = blank_rom();
    place_segment(&mut image, 0xFFFF, &[9, 8, 7]);
    assert_eq!(image.len(), ROM_SIZE);
    assert_eq!(image[0xFFFF], 9);
    assert_eq!(trim_rom(&image).len(), ROM_SIZE);
}

#[test]
fn empty_rom_keeps_one_byte() {
    assert_eq!(trim_rom(&blank_rom()), vec![0]);
}
