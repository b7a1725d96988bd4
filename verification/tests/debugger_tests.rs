//! Tests of the breakpoints, the disassembler and the monitor.

use custom_pc::debugger::breakpoint::Breakpoints;
use custom_pc::debugger::disassembler::disassemble;
use custom_pc::debugger::monitor::{parse_command, parse_u32, Command, Monitor};
use custom_pc::Machine;

fn machine_with(rom: &[u8]) -> Machine {
    let mut m = Machine::new();
    m.load_rom(rom);
    m
}

#[test]
fn breakpoints_set_and_list_sorted() {
    let mut b = Breakpoints::new();
    b.add(0x30);
    b.add(0x10);
    b.add(0x20);
    b.add(0x10);
    assert!(b.is_set(0x10));
    assert!(!b.is_set(0x11));
    assert_eq!(b.list(), vec![0x10, 0x20, 0x30]);
    b.remove(0x20);
    b.remove(0x99);
    assert_eq!(b.list(), vec![0x10, 0x30]);
    b.clear();
    assert!(b.list().is_empty());
    assert!(!b.is_set(0x10));
}

#[test]
fn disassembles_each_format() {
    let rom = [
        0x00, // nop
        0x02, 0x12, // mov r1, r2
        0x03, 0x10, 0x34, 0x12, // ldi r1, 0x1234
        0x04, 0x23, // ld r2, [r3]
        0x05, 0x45, // st [r4], r5
        0x20, 0x30, // push r3
        0x30, 0x00, 0x01, // jmp 0x0100
        0x40, 0x20, 0x01, 0x00, // in r2, 0x0001
        0xFF, // undefined
        0x23, // ret
    ];
    let m = machine_with(&rom);
    let out = disassemble(&m.mem, 0, 10);
    let texts: Vec<&str> = out.iter().map(|e| e.2.as_str()).collect();
    assert_eq!(
        texts,
        vec![
            "nop",
            "mov  r1, r2",
            "ldi  r1, 0x1234",
            "ld   r2, [r3]",
            "st   [r4], r5",
            "push r3",
            "jmp  0x0100",
            "in   r2, 0x0001",
            ".byte 0xFF",
            "ret",
        ]
    );
    let addrs: Vec<u16> = out.iter().map(|e| e.0).collect();
    assert_eq!(addrs, vec![0, 1, 3, 7, 9, 11, 13, 16, 20, 21]);
    assert_eq!(out[2].1, vec![0x03, 0x10, 0x34, 0x12]);
    assert_eq!(out[8].1, vec![0xFF]);
}

#[test]
fn disassembly_wraps_at_end_of_memory() {
    let m = Machine::new();
    let out = disassemble(&m.mem, 0xFFFF, 2);
    assert_eq!(out[0].0, 0xFFFF);
    assert_eq!(out[1].0, 0x0000);
}

#[test]
fn parses_numbers() {
    assert_eq!(parse_u32("42"), Some(42));
    assert_eq!(parse_u32(" 0x1F "), Some(31));
    assert_eq!(parse_u32("0XfF"), Some(255));
    assert_eq!(parse_u32("+7"), Some(7));
    assert_eq!(parse_u32("4294967295"), Some(u32::MAX));
    assert_eq!(parse_u32("4294967296"), None);
    assert_eq!(parse_u32("0x"), None);
    assert_eq!(parse_u32(""), None);
    assert_eq!(parse_u32("12ab"), None);
}

#[test]
fn parses_commands() {
    assert!(matches!(parse_command("  step 3 "), Command::Step(3)));
    assert!(matches!(parse_command("s"), Command::Step(1)));
    assert!(matches!(parse_command("step x"), Command::Step(1)));
    assert!(matches!(parse_command("r"), Command::Run));
    assert!(matches!(parse_command("dis 0x10 4"), Command::Dis { addr: Some(16), count: 4 }));
    assert!(matches!(parse_command("dis"), Command::Dis { addr: None, count: 8 }));
    assert!(matches!(parse_command("mem 0x20"), Command::Mem { start: 32, count: 64 }));
    assert!(matches!(parse_command("mem"), Command::Mem { start: 0, count: 64 }));
    assert!(matches!(parse_command("bp 0x100"), Command::Break(Some(256))));
    assert!(matches!(parse_command("bp zz"), Command::Break(None)));
    assert!(matches!(parse_command("bpd 5"), Command::Unbreak(Some(5))));
    assert!(matches!(parse_command("bpl"), Command::ListBreaks));
    assert!(matches!(parse_command("reset"), Command::Reset));
    assert!(matches!(parse_command("exit"), Command::Quit));
    assert!(matches!(parse_command("?"), Command::Help));
    assert!(matches!(parse_command("   "), Command::Empty));
    match parse_command("frob 1") {
        Command::Unknown(w) => assert_eq!(w, "frob"),
        _ => panic!("expected an unknown command"),
    }
}

#[test]
fn monitor_runs_to_breakpoint() {
    let mut m = machine_with(&[0x00, 0x00, 0x01]);
    let mut mon = Monitor::new();
    let out = mon.execute(&mut m, &Command::Break(Some(1)));
    assert_eq!(out, "  breakpoint added at 0x00000001\n");
    let out = mon.execute(&mut m, &Command::Run);
    assert!(out.starts_with("  breakpoint at 0x00000001\n  r0  = 0x00000000"));
    assert!(out.ends_with("  PC=0x00000001  Z=0 C=0 N=0 V=0  cycles=1\n"));
    let out = mon.execute(&mut m, &Command::ListBreaks);
    assert_eq!(out, "  0x00000001\n");
    let out = mon.execute(&mut m, &Command::Run);
    assert!(out.starts_with("  halted\n"));
    let out = mon.execute(&mut m, &Command::Step(1));
    assert!(out.starts_with("  CPU halted\n"));
    let out = mon.execute(&mut m, &Command::Reset);
    assert_eq!(out, "  CPU reset\n");
    assert_eq!(m.cpu.pc, 0);
}

#[test]
fn monitor_regs_and_unknown() {
    let mut m = machine_with(&[0x03, 0xA0, 0x2A, 0x00, 0x01]);
    let mut mon = Monitor::new();
    let out = mon.execute(&mut m, &Command::Step(1));
    let lines: Vec<&str> = out.lines().collect();
    assert_eq!(lines.len(), 6);
    assert_eq!(
        lines[2],
        "  r8  = 0x00000000  r9  = 0x00000000  r10 = 0x0000002A  r11 = 0x00000000"
    );
    assert_eq!(lines[4], "  PC=0x00000004  Z=0 C=0 N=0 V=0  cycles=1");
    assert_eq!(lines[5], "  00000004  01          hlt");
    let out = mon.execute(&mut m, &Command::Unknown("zap".to_string()));
    assert_eq!(out, "  unknown command 'zap'\n");
    let out = mon.execute(&mut m, &Command::Dis { addr: Some(0), count: 2 });
    assert_eq!(out, "  00000000  03 A0 2A 00 ldi  r10, 0x002A\n  00000004  01          hlt\n");
    let out = mon.execute(&mut m, &Command::Mem { start: 0, count: 5 });
    assert_eq!(out, "0000  03 A0 2A 00 01                                    |..*..|\n");
}

#[test]
fn breakpoint_list_is_determined_by_the_set() {
    let mut bp = Breakpoints::new();
    bp.add(0x30);
    bp.add(0x10);
    let before = bp.list();
    bp.add(0x10);
    assert_eq!(bp.list(), before);
    bp.add(0x20);
    bp.remove(0x20);
    assert_eq!(bp.list(), before);
    assert_eq!(before, vec![0x10, 0x30]);
}

#[test]
fn disassembles_mul_div_mod() {
    let m = machine_with(&[0x17, 0x12, 0x18, 0x34, 0x19, 0x56]);
    let lines: Vec<String> = disassemble(&m.mem, 0, 3).into_iter().map(|(_, _, t)| t).collect();
    assert_eq!(lines, vec!["mul  r1, r2", "div  r3, r4", "mod  r5, r6"]);
}

#[test]
fn unicode_spaces_are_trimmed() {
    assert!(matches!(parse_command("\u{3000}regs\u{00A0}"), Command::Regs));
    assert!(matches!(parse_command("\u{2003}\u{85}"), Command::Empty));
}
