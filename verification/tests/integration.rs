//! End-to-end integration tests: hand-encode a ROM and run it on the emulator.

use custom_pc::Machine;

fn run(rom: &[u8]) -> Machine {
    let mut m = Machine::new();
    m.load_rom(rom);
    m.run(Some(1_000_000)).unwrap();
    m
}

fn pack(rd: u8, rs: u8) -> u8 { (rd << 4) | (rs & 0x0F) }

// hlt          →  1 byte
fn hlt() -> Vec<u8> { vec![0x01] }

fn rom(parts: &[Vec<u8>]) -> Vec<u8> { parts.iter().flatten().copied().collect() }

#[test]
fn countdown_loop() {
    // Count down from 5 to 0.
    //   ldi r0, 5       ; addr 0
    // loop:             ; addr 4
    //   subi r0, 1      ; addr 4
    //   jnz  0x0004     ; addr 8
    //   hlt             ; addr 11

    let code = rom(&[
        ldi16(0, 5),     // addr 0
        subi16(0, 1),    // addr 4
        jnz16(4),        // addr 8
        hlt(),           // addr 11
    ]);

    let m = run(&code);
    assert_eq!(m.cpu.regs.get(0), 0, "r0 should be 0 after countdown");
    assert!(m.cpu.flags.zero, "Z flag should be set after final subi");
}

// The 16-bit encodings of ISA.md: RegImm is 4 bytes, Imm 3 bytes.
fn ldi16(rd: u8, v: u16) -> Vec<u8> { let [lo, hi] = v.to_le_bytes(); vec![0x03, pack(rd, 0), lo, hi] }
fn addi16(rd: u8, v: u16) -> Vec<u8> { let [lo, hi] = v.to_le_bytes(); vec![0x10, pack(rd, 0), lo, hi] }
fn subi16(rd: u8, v: u16) -> Vec<u8> { let [lo, hi] = v.to_le_bytes(); vec![0x11, pack(rd, 0), lo, hi] }
fn jnz16(addr: u16) -> Vec<u8> { let [lo, hi] = addr.to_le_bytes(); vec![0x32, lo, hi] }
fn st(rd: u8, rs: u8) -> Vec<u8> { vec![0x05, pack(rd, rs)] }
fn ld(rd: u8, rs: u8) -> Vec<u8> { vec![0x04, pack(rd, rs)] }
fn mov(rd: u8, rs: u8) -> Vec<u8> { vec![0x02, pack(rd, rs)] }
fn add(rd: u8, rs: u8) -> Vec<u8> { vec![0x08, pack(rd, rs)] }

#[test]
fn fibonacci_sequence() {
    // The first 8 Fibonacci numbers into memory at 0x0200, one 2-byte word each.
    //   ldi r0, 0 / ldi r1, 1 / ldi r2, 8 / ldi r3, 0x0200
    // loop:                ; address 16
    //   st [r3], r0 / addi r3, 2 / mov r4, r1 / add r1, r0 / mov r0, r4
    //   subi r2, 1 / jnz loop
    //   hlt
    let loop_addr: u16 = 16;
    let code = rom(&[
        ldi16(0, 0),
        ldi16(1, 1),
        ldi16(2, 8),
        ldi16(3, 0x0200),
        st(3, 0),
        addi16(3, 2),
        mov(4, 1),
        add(1, 0),
        mov(0, 4),
        subi16(2, 1),
        jnz16(loop_addr),
        hlt(),
    ]);

    let m = run(&code);
    assert!(m.is_halted(), "CPU did not halt");

    let expected: [u16; 8] = [0, 1, 1, 2, 3, 5, 8, 13];
    for (i, &exp) in expected.iter().enumerate() {
        let addr = 0x0200u16 + (i as u16) * 2;
        let got = m.mem.read_word(addr).unwrap();
        assert_eq!(got, exp, "fib[{i}] at {addr:#06X}: expected {exp}, got {got}");
    }
}

#[test]
fn memory_roundtrip() {
    // Write a word with `st`, clear the register, read it back with `ld`.
    let code = rom(&[
        ldi16(0, 0xBEEF),
        ldi16(1, 0x0400),
        st(1, 0),
        ldi16(0, 0),
        ld(0, 1),
        hlt(),
    ]);

    let m = run(&code);
    assert_eq!(m.cpu.regs.get(0), 0xBEEF, "memory roundtrip failed");
}
