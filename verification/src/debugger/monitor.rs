//! Interactive monitor: the commands of a simple REPL for inspecting and
//! controlling the machine. Reading lines and printing replies is the host's
//! part; this module parses a line into a command and carries it out.
use vstd::prelude::*;
use crate::cpu::{step_spec, CpuState, CpuView, MachineView};
use crate::debugger::breakpoint::Breakpoints;
use crate::debugger::disassembler::{disassemble, disassembly};
use crate::error::EmulatorError;
use crate::flags::wrap16;
use crate::machine::Machine;
use crate::memory::MemView;
use crate::text::{chars_eq, chars_of, is_whitespace, push_char, push_chars, string_of, whitespace};
use crate::utils::hex::{dec_of, dump_rows, hex_dump, hex_pad, push_dec, push_hex_pad};
use crate::utils::number::{number_value, parse_number};

verus! {

/// `s` without its leading whitespace.
pub open spec fn trim_start(s: Seq<char>) -> Seq<char>
    decreases s.len(),
{
    if s.len() > 0 && whitespace(s[0]) {
        trim_start(s.drop_first())
    } else {
        s
    }
}

/// `s` without its trailing whitespace.
pub open spec fn trim_end(s: Seq<char>) -> Seq<char>
    decreases s.len(),
{
    if s.len() > 0 && whitespace(s.last()) {
        trim_end(s.drop_last())
    } else {
        s
    }
}

/// `s` without leading and trailing whitespace.
pub open spec fn trim(s: Seq<char>) -> Seq<char> {
    trim_end(trim_start(s))
}

/// An address or number as the monitor reads it: surrounding whitespace
/// ignored, hex after `0x` or `0X`, decimal otherwise.
pub open spec fn parse_u32_spec(s: Seq<char>) -> Option<u32> {
    let t = trim(s);
    let v = if t.len() >= 2 && t[0] == '0' && (t[1] == 'x' || t[1] == 'X') {
        number_value(t.skip(2), 16, u32::MAX as nat)
    } else {
        number_value(t, 10, u32::MAX as nat)
    };
    match v {
        Some(n) => Some(n as u32),
        None => None,
    }
}

/// The characters of `s` from `start` to `end`.
pub(crate) fn slice_chars(s: &[char], start: usize, end: usize) -> (v: Vec<char>)
    requires
        start <= end <= s@.len(),
    ensures
        v@ == s@.subrange(start as int, end as int),
{
    let mut v: Vec<char> = Vec::new();
    let mut i = start;
    while i < end
        invariant
            start <= i <= end <= s@.len(),
            v@ == s@.subrange(start as int, i as int),
        decreases end - i,
    {
        v.push(s[i]);
        i += 1;
        assert(v@ =~= s@.subrange(start as int, i as int));
    }
    v
}

/// `s` without leading and trailing whitespace.
pub(crate) fn trim_chars(s: &[char]) -> (t: Vec<char>)
    ensures
        t@ == trim(s@),
{
    let n = s.len();
    let mut i: usize = 0;
    assert(s@.skip(0) =~= s@);
    while i < n && is_whitespace(s[i])
        invariant
            i <= n == s@.len(),
            trim_start(s@) == trim_start(s@.skip(i as int)),
        decreases n - i,
    {
        assert(s@.skip(i as int).drop_first() =~= s@.skip(i + 1));
        i += 1;
    }
    assert(trim_start(s@) == s@.skip(i as int));
    let mut j: usize = n;
    while j > i && is_whitespace(s[j - 1])
        invariant
            i <= j <= n == s@.len(),
            trim(s@) == trim_end(s@.subrange(i as int, j as int)),
        decreases j,
    {
        assert(s@.subrange(i as int, j as int).drop_last() =~= s@.subrange(i as int, j - 1));
        j -= 1;
    }
    assert(s@.skip(i as int) =~= s@.subrange(i as int, n as int));
    slice_chars(s, i, j)
}

/// Parse an address or number: surrounding whitespace ignored, hex after
/// `0x` or `0X`, decimal otherwise.
pub fn parse_u32(s: &str) -> (r: Option<u32>)
    ensures
        r == parse_u32_spec(s@),
{
    let cs = chars_of(s);
    let t = trim_chars(cs.as_slice());
    if t.len() >= 2 && t[0] == '0' && (t[1] == 'x' || t[1] == 'X') {
        let h = slice_chars(t.as_slice(), 2, t.len());
        assert(h@ =~= t@.skip(2));
        match parse_number(h.as_slice(), 16, 0xFFFF_FFFF) {
            Some(v) => Some(v as u32),
            None => None,
        }
    } else {
        match parse_number(t.as_slice(), 10, 0xFFFF_FFFF) {
            Some(v) => Some(v as u32),
            None => None,
        }
    }
}

/// `s` split at its first space: the part before it and the part after it
/// (the whole of `s` and nothing if it holds no space).
pub open spec fn split_space(s: Seq<char>) -> (Seq<char>, Seq<char>)
    decreases s.len(),
{
    if s.len() == 0 {
        (s, s)
    } else if s[0] == ' ' {
        (Seq::empty(), s.drop_first())
    } else {
        let (a, b) = split_space(s.drop_first());
        (seq![s[0]] + a, b)
    }
}

proof fn lemma_split_space(s: Seq<char>, i: int)
    requires
        0 <= i <= s.len(),
        forall|j: int| 0 <= j < i ==> s[j] != ' ',
        i < s.len() ==> s[i] == ' ',
    ensures
        split_space(s) == if i < s.len() {
            (s.take(i), s.skip(i + 1))
        } else {
            (s, Seq::<char>::empty())
        },
    decreases s.len(),
{
    if s.len() > 0 && i > 0 {
        lemma_split_space(s.drop_first(), i - 1);
        assert(seq![s[0]] + s.drop_first().take(i - 1) =~= s.take(i));
        if i < s.len() {
            assert(s.drop_first().skip(i) =~= s.skip(i + 1));
        }
        assert(seq![s[0]] + s.drop_first() =~= s);
    } else if s.len() > 0 {
        assert(s.take(0) =~= Seq::<char>::empty());
        assert(s.drop_first() =~= s.skip(1));
    }
}

/// `s` split at its first space.
fn split_at_space(s: &[char]) -> (r: (Vec<char>, Vec<char>))
    ensures
        (r.0@, r.1@) == split_space(s@),
{
    let mut i: usize = 0;
    while i < s.len() && s[i] != ' '
        invariant
            i <= s@.len(),
            forall|j: int| 0 <= j < i ==> s@[j] != ' ',
        decreases s@.len() - i,
    {
        i += 1;
    }
    proof {
        lemma_split_space(s@, i as int);
    }
    if i < s.len() {
        (slice_chars(s, 0, i), slice_chars(s, i + 1, s.len()))
    } else {
        assert(s@.subrange(0, i as int) =~= s@);
        (slice_chars(s, 0, i), Vec::new())
    }
}

/// A monitor command.
pub enum Command {
    /// `help`, `h`, `?`: list the commands.
    Help,
    /// `step [n]`, `s [n]`: execute up to `n` instructions (default 1), then
    /// show the registers and the next instruction.
    Step(u64),
    /// `run`, `r`: run until HLT, a breakpoint, an error or a wait for input.
    Run,
    /// `regs`: dump the registers.
    Regs,
    /// `dis [addr] [n]`: disassemble `count` instructions at `addr` (default PC).
    Dis { addr: Option<u32>, count: usize },
    /// `mem <addr> [n]`: hex dump `count` bytes from `start`.
    Mem { start: u32, count: usize },
    /// `bp <addr>`: add a breakpoint (nothing if the address does not parse).
    Break(Option<u32>),
    /// `bpd <addr>`: delete a breakpoint (nothing if the address does not parse).
    Unbreak(Option<u32>),
    /// `bpl`: list the breakpoints.
    ListBreaks,
    /// `reset`: reset the CPU.
    Reset,
    /// `quit`, `q`, `exit`.
    Quit,
    /// Any other command word.
    Unknown(String),
    /// A blank line.
    Empty,
}

pub enum CommandView {
    Help,
    Step(u64),
    Run,
    Regs,
    Dis { addr: Option<u32>, count: usize },
    Mem { start: u32, count: usize },
    Break(Option<u32>),
    Unbreak(Option<u32>),
    ListBreaks,
    Reset,
    Quit,
    Unknown(Seq<char>),
    Empty,
}

impl View for Command {
    type V = CommandView;

    open spec fn view(&self) -> CommandView {
        match self {
            Command::Help => CommandView::Help,
            Command::Step(n) => CommandView::Step(*n),
            Command::Run => CommandView::Run,
            Command::Regs => CommandView::Regs,
            Command::Dis { addr, count } => CommandView::Dis { addr: *addr, count: *count },
            Command::Mem { start, count } => CommandView::Mem { start: *start, count: *count },
            Command::Break(a) => CommandView::Break(*a),
            Command::Unbreak(a) => CommandView::Unbreak(*a),
            Command::ListBreaks => CommandView::ListBreaks,
            Command::Reset => CommandView::Reset,
            Command::Quit => CommandView::Quit,
            Command::Unknown(s) => CommandView::Unknown(s@),
            Command::Empty => CommandView::Empty,
        }
    }
}

/// A decimal count as the monitor reads it, or `default` if it does not parse.
pub open spec fn count_or(s: Seq<char>, max: nat, default: nat) -> nat {
    match number_value(trim(s), 10, max) {
        Some(v) => v,
        None => default,
    }
}

/// The command a line denotes.
pub open spec fn parse_command_spec(line: Seq<char>) -> CommandView {
    let t = trim(line);
    let (cmd, rest) = split_space(t);
    let arg = trim(rest);
    if t.len() == 0 {
        CommandView::Empty
    } else if cmd == "help"@ || cmd == "h"@ || cmd == "?"@ {
        CommandView::Help
    } else if cmd == "step"@ || cmd == "s"@ {
        CommandView::Step(count_or(arg, u64::MAX as nat, 1) as u64)
    } else if cmd == "run"@ || cmd == "r"@ {
        CommandView::Run
    } else if cmd == "regs"@ {
        CommandView::Regs
    } else if cmd == "dis"@ {
        let (a, r) = split_space(arg);
        CommandView::Dis { addr: parse_u32_spec(a), count: count_or(r, usize::MAX as nat, 8) as usize }
    } else if cmd == "mem"@ {
        let (a, r) = split_space(arg);
        CommandView::Mem {
            start: match parse_u32_spec(a) {
                Some(v) => v,
                None => 0,
            },
            count: count_or(r, usize::MAX as nat, 64) as usize,
        }
    } else if cmd == "bp"@ {
        CommandView::Break(parse_u32_spec(arg))
    } else if cmd == "bpd"@ {
        CommandView::Unbreak(parse_u32_spec(arg))
    } else if cmd == "bpl"@ {
        CommandView::ListBreaks
    } else if cmd == "reset"@ {
        CommandView::Reset
    } else if cmd == "quit"@ || cmd == "q"@ || cmd == "exit"@ {
        CommandView::Quit
    } else {
        CommandView::Unknown(cmd)
    }
}

fn is_word(s: &[char], w: &str) -> (b: bool)
    ensures
        b == (s@ == w@),
{
    let wc = chars_of(w);
    chars_eq(s, wc.as_slice())
}

fn count_arg(s: &[char], max: u64, default: u64) -> (n: u64)
    requires
        default <= max,
    ensures
        n == count_or(s@, max as nat, default as nat),
{
    let t = trim_chars(s);
    match parse_number(t.as_slice(), 10, max) {
        Some(v) => v,
        None => default,
    }
}

/// Parse one line of monitor input into a command.
pub fn parse_command(line: &str) -> (c: Command)
    ensures
        c@ == parse_command_spec(line@),
{
    let cs = chars_of(line);
    let t = trim_chars(cs.as_slice());
    let (cmd, rest) = split_at_space(t.as_slice());
    let arg = trim_chars(rest.as_slice());
    let c = cmd.as_slice();
    if t.len() == 0 {
        Command::Empty
    } else if is_word(c, "help") || is_word(c, "h") || is_word(c, "?") {
        Command::Help
    } else if is_word(c, "step") || is_word(c, "s") {
        Command::Step(count_arg(arg.as_slice(), u64::MAX, 1))
    } else if is_word(c, "run") || is_word(c, "r") {
        Command::Run
    } else if is_word(c, "regs") {
        Command::Regs
    } else if is_word(c, "dis") {
        let (a, r) = split_at_space(arg.as_slice());
        let addr = parse_u32(string_of(a.as_slice()).as_str());
        let count = count_arg(r.as_slice(), usize::MAX as u64, 8) as usize;
        Command::Dis { addr, count }
    } else if is_word(c, "mem") {
        let (a, r) = split_at_space(arg.as_slice());
        let start = match parse_u32(string_of(a.as_slice()).as_str()) {
            Some(v) => v,
            None => 0,
        };
        let count = count_arg(r.as_slice(), usize::MAX as u64, 64) as usize;
        Command::Mem { start, count }
    } else if is_word(c, "bp") {
        Command::Break(parse_u32(string_of(arg.as_slice()).as_str()))
    } else if is_word(c, "bpd") {
        Command::Unbreak(parse_u32(string_of(arg.as_slice()).as_str()))
    } else if is_word(c, "bpl") {
        Command::ListBreaks
    } else if is_word(c, "reset") {
        Command::Reset
    } else if is_word(c, "quit") || is_word(c, "q") || is_word(c, "exit") {
        Command::Quit
    } else {
        Command::Unknown(string_of(c))
    }
}

/// Why a run of steps stopped.
#[derive(Debug, Clone, Copy, PartialEq, Eq, Structural)]
pub enum Stop {
    /// The requested number of steps was executed.
    Finished,
    /// The CPU halted.
    Halted,
    /// The PC reached a breakpoint.
    Breakpoint(u16),
    /// A step raised an error.
    Failed(EmulatorError),
    /// An `in` found no host input.
    WaitingInput,
    /// The cycle counter cannot count another step.
    OutOfCycles,
}

/// The machine after stepping with breakpoints `bps`, at most `budget` steps
/// (`None`: no limit), and why it stopped. A step that fails, halts, lands on
/// a breakpoint or waits for input ends the run.
pub open spec fn steps_spec(m: MachineView, bps: Set<u32>, budget: Option<nat>) -> (MachineView, Stop)
    decreases u64::MAX - m.cpu.cycles,
{
    if budget == Some(0nat) {
        (m, Stop::Finished)
    } else if m.cpu.cycles == u64::MAX {
        (m, Stop::OutOfCycles)
    } else {
        let (m2, r) = step_spec(m);
        match r {
            Err(e) => (m2, Stop::Failed(e)),
            Ok(()) => if m2.cpu.state == CpuState::Halted {
                (m2, Stop::Halted)
            } else if bps.contains(m2.cpu.pc as u32) {
                (m2, Stop::Breakpoint(m2.cpu.pc))
            } else if m2.cpu.state == CpuState::WaitingInput {
                (m2, Stop::WaitingInput)
            } else {
                proof {
                    crate::cpu::lemma_step_cycles(m);
                }
                steps_spec(
                    m2,
                    bps,
                    match budget {
                        Some(n) => Some((n - 1) as nat),
                        None => None,
                    },
                )
            },
        }
    }
}

/// The line reporting why a run stopped (nothing if it finished its steps).
pub open spec fn stop_text(s: Stop) -> Seq<char> {
    match s {
        Stop::Finished => Seq::empty(),
        Stop::Halted => "  halted\n"@,
        Stop::Breakpoint(pc) => "  breakpoint at 0x"@ + hex_pad(pc as nat, 8) + seq!['\n'],
        Stop::Failed(e) => seq![' ', ' '] + e.message_spec() + seq!['\n'],
        Stop::WaitingInput => "  waiting for input\n"@,
        Stop::OutOfCycles => "  cycle counter exhausted\n"@,
    }
}

/// One register cell of the register dump, such as `  r3  = 0x0000002A`.
pub open spec fn reg_cell(i: nat, v: u16) -> Seq<char> {
    seq![' ', ' ', 'r'] + dec_of(i) + (if i < 10 { seq![' '] } else { Seq::empty() }) + seq![
        ' ',
        '=',
        ' ',
        '0',
        'x',
    ] + hex_pad(v as nat, 8)
}

/// Rows `0..k` of the register dump, four registers to a row.
pub open spec fn reg_rows(regs: Seq<u16>, k: nat) -> Seq<char>
    decreases k,
{
    if k == 0 {
        Seq::empty()
    } else {
        let r = (k - 1) as nat;
        reg_rows(regs, r) + reg_cell(4 * r, regs[4 * r as int]) + reg_cell(4 * r + 1, regs[4 * r + 1int])
            + reg_cell(4 * r + 2, regs[4 * r + 2int]) + reg_cell(4 * r + 3, regs[4 * r + 3int]) + seq!['\n']
    }
}

pub open spec fn flag_char(b: bool) -> char {
    if b { '1' } else { '0' }
}

/// The register dump: sixteen registers, then the PC, flags and cycle count.
pub open spec fn regs_text(c: CpuView) -> Seq<char> {
    reg_rows(c.regs, 4) + "  PC=0x"@ + hex_pad(c.pc as nat, 8) + seq![' ', ' ', 'Z', '=', flag_char(c.flags.zero), ' ', 'C', '=', flag_char(c.flags.carry), ' ', 'N', '=', flag_char(c.flags.negative), ' ', 'V', '=', flag_char(c.flags.overflow), ' ', ' '] + "cycles="@ + dec_of(c.cycles as nat) + seq!['\n']
}

/// The bytes of a disassembled instruction, two hex digits and a space each,
/// padded to twelve columns.
pub open spec fn bytes_column(bytes: Seq<u8>) -> Seq<char>
    decreases bytes.len(),
{
    if bytes.len() == 0 {
        Seq::empty()
    } else {
        bytes_column(bytes.drop_last()) + hex_pad(bytes.last() as nat, 2) + seq![' ']
    }
}

pub open spec fn pad12(s: Seq<char>) -> Seq<char> {
    if s.len() < 12 { s + Seq::new((12 - s.len()) as nat, |k: int| ' ') } else { s }
}

/// The disassembly listing lines of `entries`.
pub open spec fn dis_lines(entries: Seq<(u16, Seq<u8>, Seq<char>)>) -> Seq<char>
    decreases entries.len(),
{
    if entries.len() == 0 {
        Seq::empty()
    } else {
        let e = entries.last();
        dis_lines(entries.drop_last()) + seq![' ', ' '] + hex_pad(e.0 as nat, 8) + seq![' ', ' '] + pad12(bytes_column(e.1)) + e.2 + seq!['\n']
    }
}

/// The bytes `mem` shows from address `start` on (addresses wrapping at 64 KiB).
pub open spec fn mem_bytes(m: MemView, start: u32, n: nat) -> Seq<u8> {
    Seq::new(n, |i: int| m.read_byte(((start + i) % 0x1_0000) as u16))
}

/// The breakpoint listing: one line per address, in increasing order.
pub open spec fn bp_lines(addrs: Seq<u32>) -> Seq<char>
    decreases addrs.len(),
{
    if addrs.len() == 0 {
        Seq::empty()
    } else {
        bp_lines(addrs.drop_last()) + seq![' ', ' ', '0', 'x'] + hex_pad(addrs.last() as nat, 8) + seq!['\n']
    }
}

/// The command summary `help` prints.
pub open spec fn help_text() -> Seq<char> {
    "  step  [n]          — execute n instructions (default 1)\n  run                — run until HLT or breakpoint\n  regs               — dump registers\n  dis   [addr] [n]   — disassemble n instructions at addr\n  mem   <addr> [n]   — hex dump n bytes at addr\n  bp    <addr>        — add breakpoint\n  bpd   <addr>        — delete breakpoint\n  bpl                — list breakpoints\n  reset              — reset CPU\n  quit               — exit\n"@
}

/// How many bytes `mem` dumps for a requested count: the count taken modulo
/// 2^32, and no more than the dump's address arithmetic allows.
pub open spec fn mem_count(count: usize) -> nat {
    let n = count as nat % 0x1_0000_0000;
    if n + 0x1_0010 <= usize::MAX { n } else { (usize::MAX - 0x1_0010) as nat }
}

/// What a command does: the machine, the breakpoints and the text it prints
/// afterwards, given them before.
pub open spec fn command_effect(cmd: CommandView, m: MachineView, bps: Set<u32>, out: Seq<char>, m2: MachineView, bps2: Set<u32>) -> bool {
    match cmd {
        CommandView::Help => m2 == m && bps2 == bps && out == help_text(),
        CommandView::Step(n) => {
            let (m3, stop) = steps_spec(m, bps, Some(n as nat));
            m2 == m3 && bps2 == bps && out == stop_text(stop) + regs_text(m3.cpu) + dis_lines(
                disassembly(m3.mem, m3.cpu.pc, 1),
            )
        },
        CommandView::Run => {
            let (m3, stop) = steps_spec(m, bps, None);
            m2 == m3 && bps2 == bps && out == stop_text(stop) + regs_text(m3.cpu)
        },
        CommandView::Regs => m2 == m && bps2 == bps && out == regs_text(m.cpu),
        CommandView::Dis { addr, count } => {
            let start: u32 = match addr {
                Some(a) => a,
                None => m.cpu.pc as u32,
            };
            m2 == m && bps2 == bps && out == dis_lines(disassembly(m.mem, (start % 0x1_0000) as u16, count as nat))
        },
        CommandView::Mem { start, count } => m2 == m && bps2 == bps && out == dump_rows(
            mem_bytes(m.mem, start, mem_count(count)),
            (start % 0x1_0000) as nat,
            0,
        ),
        CommandView::Break(a) => m2 == m && match a {
            Some(x) => bps2 == bps.insert(x) && out == "  breakpoint added at 0x"@ + hex_pad(x as nat, 8) + seq!['\n'],
            None => bps2 == bps && out == Seq::<char>::empty(),
        },
        CommandView::Unbreak(a) => m2 == m && match a {
            Some(x) => bps2 == bps.remove(x) && out == "  breakpoint removed\n"@,
            None => bps2 == bps && out == Seq::<char>::empty(),
        },
        CommandView::ListBreaks => m2 == m && bps2 == bps && exists|s: Seq<u32>| #![auto] crate::debugger::breakpoint::strictly_increasing(s) && s.to_set() == bps && out == bp_lines(s),
        CommandView::Reset => m2 == (MachineView { cpu: crate::cpu::initial_cpu(), ..m }) && bps2 == bps && out == "  CPU reset\n"@,
        CommandView::Quit | CommandView::Empty => m2 == m && bps2 == bps && out == Seq::<char>::empty(),
        CommandView::Unknown(c) => m2 == m && bps2 == bps && out == "  unknown command '"@ + c + "'\n"@,
    }
}

fn push_str(out: &mut String, s: &str)
    ensures
        final(out)@ == old(out)@ + s@,
{
    let cs = chars_of(s);
    push_chars(out, cs.as_slice());
}

fn stop_to_text(stop: Stop) -> (s: String)
    ensures
        s@ == stop_text(stop),
{
    let mut s = String::new();
    match stop {
        Stop::Finished => {},
        Stop::Halted => push_str(&mut s, "  halted\n"),
        Stop::Breakpoint(pc) => {
            push_str(&mut s, "  breakpoint at 0x");
            push_hex_pad(&mut s, pc as usize, 8);
            push_char(&mut s, '\n');
        },
        Stop::Failed(e) => {
            push_chars(&mut s, &[' ', ' ']);
            let m = e.message();
            push_str(&mut s, m.as_str());
            push_char(&mut s, '\n');
        },
        Stop::WaitingInput => push_str(&mut s, "  waiting for input\n"),
        Stop::OutOfCycles => push_str(&mut s, "  cycle counter exhausted\n"),
    }
    assert(s@ =~= stop_text(stop));
    s
}

/// The disassembly of `count` instructions from `start`, one line each.
fn dis_to_text(machine: &Machine, start: u16, count: usize) -> (out: String)
    requires
        machine.wf(),
    ensures
        out@ == dis_lines(disassembly(machine@.mem, start, count as nat)),
{
    let mut out = String::new();
    let entries = disassemble(&machine.mem, start, count);
    let ghost es = disassembly(machine@.mem, start, count as nat);
    proof {
        crate::debugger::disassembler::lemma_disassembly_len(machine@.mem, start, count as nat);
        crate::debugger::disassembler::lemma_disassembly_bytes(machine@.mem, start, count as nat);
    }
    let mut k: usize = 0;
    while k < entries.len()
        invariant
            k <= entries@.len() == es.len(),
            forall|j: int| 0 <= j < es.len() ==> (#[trigger] es[j]).1.len() <= 4,
            forall|j: int| 0 <= j < es.len() ==> {
                &&& entries@[j].0 == (#[trigger] es[j]).0
                &&& entries@[j].1@ == es[j].1
                &&& entries@[j].2@ == es[j].2
            },
            out@ == dis_lines(es.take(k as int)),
        decreases entries@.len() - k,
    {
        let ghost e = es[k as int];
        push_chars(&mut out, &[' ', ' ']);
        push_hex_pad(&mut out, entries[k].0 as usize, 8);
        push_chars(&mut out, &[' ', ' ']);
        let ghost col_start = out@;
        let bytes = &entries[k].1;
        let mut j: usize = 0;
        while j < bytes.len()
            invariant
                j <= bytes@.len(),
                out@ == col_start + bytes_column(bytes@.take(j as int)),
            decreases bytes@.len() - j,
        {
            push_hex_pad(&mut out, bytes[j] as usize, 2);
            push_char(&mut out, ' ');
            j += 1;
            assert(bytes@.take(j as int).drop_last() =~= bytes@.take(j - 1));
            assert(out@ =~= col_start + bytes_column(bytes@.take(j as int)));
        }
        assert(bytes@.take(j as int) =~= bytes@);
        let ghost col = bytes_column(bytes@);
        let mut w: usize = 3 * bytes.len();
        proof {
            lemma_bytes_column_len(bytes@);
        }
        let ghost padded_start = out@;
        while w < 12
            invariant
                col.len() == 3 * bytes@.len(),
                col.len() <= w <= if col.len() < 12 { 12 } else { col.len() },
                out@ == padded_start + Seq::new((w - col.len()) as nat, |q: int| ' '),
            decreases 12 - w,
        {
            push_char(&mut out, ' ');
            w += 1;
            assert(out@ =~= padded_start + Seq::new((w - col.len()) as nat, |q: int| ' '));
        }
        push_str(&mut out, entries[k].2.as_str());
        push_char(&mut out, '\n');
        k += 1;
        assert(es.take(k as int).drop_last() =~= es.take(k - 1));
        assert(out@ =~= dis_lines(es.take(k as int)));
    }
    assert(es.take(k as int) =~= es);
    out
}

fn regs_to_text(machine: &Machine) -> (s: String)
    ensures
        s@ == regs_text(machine@.cpu),
{
    let cpu = &machine.cpu;
    let ghost regs = cpu.regs@;
    proof {
        cpu.regs.lemma_len();
    }
    let mut s = String::new();
    let mut row: usize = 0;
    while row < 4
        invariant
            row <= 4,
            regs == cpu.regs@,
            regs.len() == 16,
            s@ == reg_rows(regs, row as nat),
        decreases 4 - row,
    {
        let mut col: usize = 0;
        let ghost base = s@;
        while col < 4
            invariant
                row < 4,
                col <= 4,
                regs == cpu.regs@,
                regs.len() == 16,
                s@ == base + reg_cells(regs, 4 * row as nat, col as nat),
            decreases 4 - col,
        {
            let i = row * 4 + col;
            let ghost before = s@;
            push_chars(&mut s, &[' ', ' ', 'r']);
            push_dec(&mut s, i as u64);
            if i < 10 {
                push_char(&mut s, ' ');
            }
            push_chars(&mut s, &[' ', '=', ' ', '0', 'x']);
            let v = cpu.regs.get(i as u8);
            assert(v == regs[i as int]);
            push_hex_pad(&mut s, v as usize, 8);
            assert(s@ =~= before + reg_cell(i as nat, regs[i as int]));
            col += 1;
            assert(s@ =~= base + reg_cells(regs, 4 * row as nat, col as nat));
        }
        push_char(&mut s, '\n');
        row += 1;
        proof {
            lemma_reg_row(regs, (row - 1) as nat);
        }
        assert(s@ =~= reg_rows(regs, row as nat));
    }
    push_str(&mut s, "  PC=0x");
    push_hex_pad(&mut s, cpu.pc as usize, 8);
    let f = cpu.flags;
    push_chars(&mut s, &[' ', ' ', 'Z', '=', if f.zero { '1' } else { '0' }, ' ', 'C', '=', if f.carry { '1' } else { '0' }, ' ', 'N', '=', if f.negative { '1' } else { '0' }, ' ', 'V', '=', if f.overflow { '1' } else { '0' }, ' ', ' ']);
    push_str(&mut s, "cycles=");
    push_dec(&mut s, cpu.cycles);
    push_char(&mut s, '\n');
    assert(s@ =~= regs_text(machine@.cpu));
    s
}

proof fn lemma_reg_row(regs: Seq<u16>, r: nat)
    ensures
        reg_rows(regs, r + 1) == reg_rows(regs, r) + reg_cells(regs, 4 * r, 4) + seq!['\n'],
{
    reveal_with_fuel(reg_cells, 5);
    assert(reg_rows(regs, r + 1) =~= reg_rows(regs, r) + reg_cells(regs, 4 * r, 4) + seq!['\n']);
}

proof fn lemma_bytes_column_len(bytes: Seq<u8>)
    ensures
        bytes_column(bytes).len() == 3 * bytes.len(),
    decreases bytes.len(),
{
    if bytes.len() > 0 {
        lemma_bytes_column_len(bytes.drop_last());
        crate::utils::hex::lemma_hex_pad_width(bytes.last() as nat, 2);
    }
}

/// The first `k` cells of a register row starting at register `first`.
pub open spec fn reg_cells(regs: Seq<u16>, first: nat, k: nat) -> Seq<char>
    decreases k,
{
    if k == 0 {
        Seq::empty()
    } else {
        reg_cells(regs, first, (k - 1) as nat) + reg_cell((first + k - 1) as nat, regs[first + k - 1])
    }
}

pub struct Monitor {
    pub breakpoints: Breakpoints,
}

impl Monitor {
    pub fn new() -> (m: Self)
        ensures
            m.breakpoints.wf(),
            m.breakpoints@ == Set::<u32>::empty(),
    {
        Monitor { breakpoints: Breakpoints::new() }
    }

    /// Carry out one command: its effect on the machine and the
    /// breakpoints, and the text to print (see `command_effect`).
    pub fn execute(&mut self, machine: &mut Machine, cmd: &Command) -> (out: String)
        requires
            old(self).breakpoints.wf(),
            old(machine).wf(),
        ensures
            final(self).breakpoints.wf(),
            final(machine).wf(),
            command_effect(cmd@, old(machine)@, old(self).breakpoints@, out@, final(machine)@, final(self).breakpoints@),
    {
        let mut out = String::new();
        match cmd {
            Command::Help => {
                push_str(&mut out, "  step  [n]          — execute n instructions (default 1)\n  run                — run until HLT or breakpoint\n  regs               — dump registers\n  dis   [addr] [n]   — disassemble n instructions at addr\n  mem   <addr> [n]   — hex dump n bytes at addr\n  bp    <addr>        — add breakpoint\n  bpd   <addr>        — delete breakpoint\n  bpl                — list breakpoints\n  reset              — reset CPU\n  quit               — exit\n");
                assert(out@ =~= help_text());
            },
            Command::Step(n) => {
                let stop = self.run_steps(machine, Some(*n));
                let a = stop_to_text(stop);
                let b = regs_to_text(machine);
                let d = dis_to_text(machine, machine.cpu.pc, 1);
                push_str(&mut out, a.as_str());
                push_str(&mut out, b.as_str());
                push_str(&mut out, d.as_str());
                assert(out@ =~= stop_text(stop) + regs_text(machine@.cpu) + dis_lines(
                    disassembly(machine@.mem, machine@.cpu.pc, 1),
                ));
            },
            Command::Run => {
                let stop = self.run_steps(machine, None);
                let a = stop_to_text(stop);
                let b = regs_to_text(machine);
                push_str(&mut out, a.as_str());
                push_str(&mut out, b.as_str());
                assert(out@ =~= stop_text(stop) + regs_text(machine@.cpu));
            },
            Command::Regs => {
                let b = regs_to_text(machine);
                push_str(&mut out, b.as_str());
                assert(out@ =~= regs_text(machine@.cpu));
            },
            Command::Dis { addr, count } => {
                let start: u32 = match addr {
                    Some(a) => *a,
                    None => machine.cpu.pc as u32,
                };
                let d = dis_to_text(machine, (start % 0x1_0000) as u16, *count);
                push_str(&mut out, d.as_str());
                assert(out@ =~= dis_lines(disassembly(machine@.mem, (start % 0x1_0000) as u16, *count as nat)));
            },
            Command::Mem { start, count } => {
                let n32: u64 = (*count as u64) % 0x1_0000_0000;
                let n: usize = if n32 + 0x1_0010 <= usize::MAX as u64 { n32 as usize } else { usize::MAX - 0x1_0010 };
                let mut bytes: Vec<u8> = Vec::new();
                let mut i: usize = 0;
                while i < n
                    invariant
                        machine.wf(),
                        i <= n <= 0xFFFF_FFFF,
                        bytes@ == mem_bytes(machine@.mem, *start, i as nat),
                    decreases n - i,
                {
                    let a = (((*start as u64) + (i as u64)) % 0x1_0000) as u16;
                    bytes.push(machine.mem.read_byte(a));
                    i += 1;
                    assert(bytes@ =~= mem_bytes(machine@.mem, *start, i as nat));
                }
                let d = hex_dump(bytes.as_slice(), (*start % 0x1_0000) as u16);
                push_str(&mut out, d.as_str());
                assert(out@ =~= d@);
            },
            Command::Break(a) => {
                match a {
                    Some(x) => {
                        self.breakpoints.add(*x);
                        push_str(&mut out, "  breakpoint added at 0x");
                        push_hex_pad(&mut out, *x as usize, 8);
                        push_char(&mut out, '\n');
                    },
                    None => {},
                }
                assert(out@ =~= match a {
                    Some(x) => "  breakpoint added at 0x"@ + hex_pad(x as nat, 8) + seq!['\n'],
                    None => Seq::<char>::empty(),
                });
            },
            Command::Unbreak(a) => {
                match a {
                    Some(x) => {
                        self.breakpoints.remove(*x);
                        push_str(&mut out, "  breakpoint removed\n");
                    },
                    None => {},
                }
                assert(out@ =~= match a {
                    Some(x) => "  breakpoint removed\n"@,
                    None => Seq::<char>::empty(),
                });
            },
            Command::ListBreaks => {
                let list = self.breakpoints.list();
                let mut k: usize = 0;
                while k < list.len()
                    invariant
                        k <= list@.len(),
                        out@ == bp_lines(list@.take(k as int)),
                    decreases list@.len() - k,
                {
                    push_chars(&mut out, &[' ', ' ', '0', 'x']);
                    push_hex_pad(&mut out, list[k] as usize, 8);
                    push_char(&mut out, '\n');
                    k += 1;
                    assert(list@.take(k as int).drop_last() =~= list@.take(k - 1));
                    assert(out@ =~= bp_lines(list@.take(k as int)));
                }
                assert(list@.take(k as int) =~= list@);
            },
            Command::Reset => {
                machine.reset();
                push_str(&mut out, "  CPU reset\n");
            },
            Command::Quit | Command::Empty => {
                assert(out@ =~= Seq::<char>::empty());
            },
            Command::Unknown(c) => {
                push_str(&mut out, "  unknown command '");
                push_str(&mut out, c.as_str());
                push_str(&mut out, "'\n");
            },
        }
        out
    }

    /// Step the machine until a stop (see `steps_spec`), at most `budget`
    /// steps if one is given.
    pub fn run_steps(&self, machine: &mut Machine, budget: Option<u64>) -> (stop: Stop)
        requires
            self.breakpoints.wf(),
            old(machine).wf(),
        ensures
            final(machine).wf(),
            (final(machine)@, stop) == steps_spec(
                old(machine)@,
                self.breakpoints@,
                match budget {
                    Some(n) => Some(n as nat),
                    None => None,
                },
            ),
    {
        let mut left = budget;
        loop
            invariant
                machine.wf(),
                self.breakpoints.wf(),
                steps_spec(
                    machine@,
                    self.breakpoints@,
                    match left {
                        Some(n) => Some(n as nat),
                        None => None,
                    },
                ) == steps_spec(
                    old(machine)@,
                    self.breakpoints@,
                    match budget {
                        Some(n) => Some(n as nat),
                        None => None,
                    },
                ),
            decreases u64::MAX - machine@.cpu.cycles,
        {
            if left == Some(0u64) {
                return Stop::Finished;
            }
            if machine.cpu.cycles == u64::MAX {
                return Stop::OutOfCycles;
            }
            let ghost before = machine@;
            proof {
                crate::cpu::lemma_step_cycles(before);
            }
            match machine.step() {
                Err(e) => {
                    return Stop::Failed(e);
                },
                Ok(()) => {},
            }
            if machine.is_halted() {
                return Stop::Halted;
            }
            if self.breakpoints.is_set(machine.cpu.pc as u32) {
                return Stop::Breakpoint(machine.cpu.pc);
            }
            if machine.is_waiting_input() {
                return Stop::WaitingInput;
            }
            left = match left {
                Some(n) => Some(n - 1),
                None => None,
            };
        }
    }
}

impl Default for Monitor {
    fn default() -> (m: Self)
        ensures
            m.breakpoints.wf(),
            m.breakpoints@ == Set::<u32>::empty(),
    {
        Self::new()
    }
}

} // verus!
