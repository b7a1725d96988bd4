//! Code generation: abstract instructions, their encoding, and the linker
//! that resolves labels to addresses.
use vstd::prelude::*;
use crate::rsc::ast::{
    exprs_view, functions_view, lemma_exprs_view_index, lemma_stmts_view_index, params_view,
    stmts_view, BinOp, Expr, ExprView, Function, FunctionView, Program, Stmt, StmtView, Type, UnOp,
};
use crate::executor::{cont, execute_spec, ExecView};
use crate::flags::{as_signed, sub_flags};
use crate::instruction::{decode_bytes, instr_of};
use crate::rsc::error::{CompileError, Result};
use crate::text::{chars_eq, chars_of, concat3, push_chars, string_is};
use crate::utils::hex::{dec_of, push_dec};

verus! {

/// An abstract instruction. The `…L` forms name a label that the linker
/// resolves to an address; `Label` marks a position and emits nothing.
#[derive(Debug)]
pub enum Ins {
    Nop,
    Hlt,
    Mov(u8, u8),
    Ldi(u8, u32),
    Ld(u8, u8),
    St(u8, u8),
    Ldb(u8, u8),
    Stb(u8, u8),
    Add(u8, u8),
    Sub(u8, u8),
    Mul(u8, u8),
    Div(u8, u8),
    Mod(u8, u8),
    And(u8, u8),
    Or(u8, u8),
    Xor(u8, u8),
    Not(u8),
    Shl(u8, u8),
    Shr(u8, u8),
    Addi(u8, u32),
    Subi(u8, u32),
    Andi(u8, u32),
    Ori(u8, u32),
    Xori(u8, u32),
    Cmp(u8, u8),
    Cmpi(u8, u32),
    Push(u8),
    Pop(u8),
    Call(u32),
    CallL(String),
    Ret,
    Jmp(u32),
    JmpL(String),
    Jz(u32),
    JzL(String),
    Jnz(u32),
    JnzL(String),
    Jlt(u32),
    JltL(String),
    Jgt(u32),
    JgtL(String),
    Jle(u32),
    JleL(String),
    Jge(u32),
    JgeL(String),
    Out(u8, u32),
    Label(String),
}

pub enum InsView {
    Nop,
    Hlt,
    Mov(u8, u8),
    Ldi(u8, u32),
    Ld(u8, u8),
    St(u8, u8),
    Ldb(u8, u8),
    Stb(u8, u8),
    Add(u8, u8),
    Sub(u8, u8),
    Mul(u8, u8),
    Div(u8, u8),
    Mod(u8, u8),
    And(u8, u8),
    Or(u8, u8),
    Xor(u8, u8),
    Not(u8),
    Shl(u8, u8),
    Shr(u8, u8),
    Addi(u8, u32),
    Subi(u8, u32),
    Andi(u8, u32),
    Ori(u8, u32),
    Xori(u8, u32),
    Cmp(u8, u8),
    Cmpi(u8, u32),
    Push(u8),
    Pop(u8),
    Call(u32),
    CallL(Seq<char>),
    Ret,
    Jmp(u32),
    JmpL(Seq<char>),
    Jz(u32),
    JzL(Seq<char>),
    Jnz(u32),
    JnzL(Seq<char>),
    Jlt(u32),
    JltL(Seq<char>),
    Jgt(u32),
    JgtL(Seq<char>),
    Jle(u32),
    JleL(Seq<char>),
    Jge(u32),
    JgeL(Seq<char>),
    Out(u8, u32),
    Label(Seq<char>),
}

impl View for Ins {
    type V = InsView;

    open spec fn view(&self) -> InsView {
        match self {
            Ins::Nop => InsView::Nop,
            Ins::Hlt => InsView::Hlt,
            Ins::Mov(a, b) => InsView::Mov(*a, *b),
            Ins::Ldi(a, v) => InsView::Ldi(*a, *v),
            Ins::Ld(a, b) => InsView::Ld(*a, *b),
            Ins::St(a, b) => InsView::St(*a, *b),
            Ins::Ldb(a, b) => InsView::Ldb(*a, *b),
            Ins::Stb(a, b) => InsView::Stb(*a, *b),
            Ins::Add(a, b) => InsView::Add(*a, *b),
            Ins::Sub(a, b) => InsView::Sub(*a, *b),
            Ins::Mul(a, b) => InsView::Mul(*a, *b),
            Ins::Div(a, b) => InsView::Div(*a, *b),
            Ins::Mod(a, b) => InsView::Mod(*a, *b),
            Ins::And(a, b) => InsView::And(*a, *b),
            Ins::Or(a, b) => InsView::Or(*a, *b),
            Ins::Xor(a, b) => InsView::Xor(*a, *b),
            Ins::Not(a) => InsView::Not(*a),
            Ins::Shl(a, b) => InsView::Shl(*a, *b),
            Ins::Shr(a, b) => InsView::Shr(*a, *b),
            Ins::Addi(a, v) => InsView::Addi(*a, *v),
            Ins::Subi(a, v) => InsView::Subi(*a, *v),
            Ins::Andi(a, v) => InsView::Andi(*a, *v),
            Ins::Ori(a, v) => InsView::Ori(*a, *v),
            Ins::Xori(a, v) => InsView::Xori(*a, *v),
            Ins::Cmp(a, b) => InsView::Cmp(*a, *b),
            Ins::Cmpi(a, v) => InsView::Cmpi(*a, *v),
            Ins::Push(a) => InsView::Push(*a),
            Ins::Pop(a) => InsView::Pop(*a),
            Ins::Call(v) => InsView::Call(*v),
            Ins::CallL(s) => InsView::CallL(s@),
            Ins::Ret => InsView::Ret,
            Ins::Jmp(v) => InsView::Jmp(*v),
            Ins::JmpL(s) => InsView::JmpL(s@),
            Ins::Jz(v) => InsView::Jz(*v),
            Ins::JzL(s) => InsView::JzL(s@),
            Ins::Jnz(v) => InsView::Jnz(*v),
            Ins::JnzL(s) => InsView::JnzL(s@),
            Ins::Jlt(v) => InsView::Jlt(*v),
            Ins::JltL(s) => InsView::JltL(s@),
            Ins::Jgt(v) => InsView::Jgt(*v),
            Ins::JgtL(s) => InsView::JgtL(s@),
            Ins::Jle(v) => InsView::Jle(*v),
            Ins::JleL(s) => InsView::JleL(s@),
            Ins::Jge(v) => InsView::Jge(*v),
            Ins::JgeL(s) => InsView::JgeL(s@),
            Ins::Out(a, v) => InsView::Out(*a, *v),
            Ins::Label(s) => InsView::Label(s@),
        }
    }
}

pub open spec fn code_view(code: Seq<Ins>) -> Seq<InsView> {
    code.map_values(|i: Ins| i@)
}

/// The number of bytes the linker counts for an instruction.
pub open spec fn ins_len(i: InsView) -> nat {
    match i {
        InsView::Nop => 1,
        InsView::Hlt => 1,
        InsView::Mov(..) => 2,
        InsView::Ldi(..) => 4,
        InsView::Ld(..) => 2,
        InsView::St(..) => 2,
        InsView::Ldb(..) => 2,
        InsView::Stb(..) => 2,
        InsView::Add(..) => 2,
        InsView::Sub(..) => 2,
        InsView::Mul(..) => 2,
        InsView::Div(..) => 2,
        InsView::Mod(..) => 2,
        InsView::And(..) => 2,
        InsView::Or(..) => 2,
        InsView::Xor(..) => 2,
        InsView::Not(..) => 2,
        InsView::Shl(..) => 2,
        InsView::Shr(..) => 2,
        InsView::Addi(..) => 4,
        InsView::Subi(..) => 4,
        InsView::Andi(..) => 4,
        InsView::Ori(..) => 4,
        InsView::Xori(..) => 4,
        InsView::Cmp(..) => 2,
        InsView::Cmpi(..) => 4,
        InsView::Push(..) => 2,
        InsView::Pop(..) => 2,
        InsView::Call(..) => 3,
        InsView::CallL(..) => 3,
        InsView::Ret => 1,
        InsView::Jmp(..) => 3,
        InsView::JmpL(..) => 3,
        InsView::Jz(..) => 3,
        InsView::JzL(..) => 3,
        InsView::Jnz(..) => 3,
        InsView::JnzL(..) => 3,
        InsView::Jlt(..) => 3,
        InsView::JltL(..) => 3,
        InsView::Jgt(..) => 3,
        InsView::JgtL(..) => 3,
        InsView::Jle(..) => 3,
        InsView::JleL(..) => 3,
        InsView::Jge(..) => 3,
        InsView::JgeL(..) => 3,
        InsView::Out(..) => 4,
        InsView::Label(..) => 0,
    }
}

/// A register byte: `d` in the high nibble, `s` in the low one.
pub open spec fn pack(d: u8, s: u8) -> u8 {
    ((d as int * 16) % 256 + s as int % 16) as u8
}

/// The two little-endian bytes of the low 16 bits of `v` (immediates and
/// addresses are 16-bit).
pub open spec fn le16(v: u32) -> Seq<u8> {
    seq![(v % 256) as u8, ((v / 256) % 256) as u8]
}

/// The bytes an instruction encodes to (nothing for labels and unresolved
/// label references).
pub open spec fn ins_bytes(i: InsView) -> Seq<u8> {
    match i {
        InsView::Nop => seq![0x00u8],
        InsView::Hlt => seq![0x01u8],
        InsView::Mov(d, s) => seq![0x02u8, pack(d, s)],
        InsView::Ldi(d, v) => seq![0x03u8, pack(d, 0)] + le16(v),
        InsView::Ld(d, s) => seq![0x04u8, pack(d, s)],
        InsView::St(d, s) => seq![0x05u8, pack(d, s)],
        InsView::Ldb(d, s) => seq![0x06u8, pack(d, s)],
        InsView::Stb(d, s) => seq![0x07u8, pack(d, s)],
        InsView::Add(d, s) => seq![0x08u8, pack(d, s)],
        InsView::Sub(d, s) => seq![0x09u8, pack(d, s)],
        InsView::Mul(d, s) => seq![0x17u8, pack(d, s)],
        InsView::Div(d, s) => seq![0x18u8, pack(d, s)],
        InsView::Mod(d, s) => seq![0x19u8, pack(d, s)],
        InsView::And(d, s) => seq![0x0au8, pack(d, s)],
        InsView::Or(d, s) => seq![0x0bu8, pack(d, s)],
        InsView::Xor(d, s) => seq![0x0cu8, pack(d, s)],
        InsView::Not(d) => seq![0x0du8, pack(d, 0)],
        InsView::Shl(d, s) => seq![0x0eu8, pack(d, s)],
        InsView::Shr(d, s) => seq![0x0fu8, pack(d, s)],
        InsView::Addi(d, v) => seq![0x10u8, pack(d, 0)] + le16(v),
        InsView::Subi(d, v) => seq![0x11u8, pack(d, 0)] + le16(v),
        InsView::Andi(d, v) => seq![0x12u8, pack(d, 0)] + le16(v),
        InsView::Ori(d, v) => seq![0x13u8, pack(d, 0)] + le16(v),
        InsView::Xori(d, v) => seq![0x14u8, pack(d, 0)] + le16(v),
        InsView::Cmp(d, s) => seq![0x15u8, pack(d, s)],
        InsView::Cmpi(d, v) => seq![0x16u8, pack(d, 0)] + le16(v),
        InsView::Push(s) => seq![0x20u8, pack(s, 0)],
        InsView::Pop(d) => seq![0x21u8, pack(d, 0)],
        InsView::Call(a) => seq![0x22u8] + le16(a),
        InsView::CallL(..) => Seq::empty(),
        InsView::Ret => seq![0x23u8],
        InsView::Jmp(a) => seq![0x30u8] + le16(a),
        InsView::JmpL(..) => Seq::empty(),
        InsView::Jz(a) => seq![0x31u8] + le16(a),
        InsView::JzL(..) => Seq::empty(),
        InsView::Jnz(a) => seq![0x32u8] + le16(a),
        InsView::JnzL(..) => Seq::empty(),
        InsView::Jlt(a) => seq![0x3au8] + le16(a),
        InsView::JltL(..) => Seq::empty(),
        InsView::Jgt(a) => seq![0x39u8] + le16(a),
        InsView::JgtL(..) => Seq::empty(),
        InsView::Jle(a) => seq![0x3cu8] + le16(a),
        InsView::JleL(..) => Seq::empty(),
        InsView::Jge(a) => seq![0x3bu8] + le16(a),
        InsView::JgeL(..) => Seq::empty(),
        InsView::Out(d, v) => seq![0x41u8, pack(d, 0)] + le16(v),
        InsView::Label(..) => Seq::empty(),
    }
}

/// The label an instruction refers to, if any.
pub open spec fn label_target(i: InsView) -> Option<Seq<char>> {
    match i {
        InsView::CallL(l) => Some(l),
        InsView::JmpL(l) => Some(l),
        InsView::JzL(l) => Some(l),
        InsView::JnzL(l) => Some(l),
        InsView::JltL(l) => Some(l),
        InsView::JgtL(l) => Some(l),
        InsView::JleL(l) => Some(l),
        InsView::JgeL(l) => Some(l),
        _ => None,
    }
}

/// A label reference resolved to `addr`.
pub open spec fn with_addr(i: InsView, addr: u32) -> InsView {
    match i {
        InsView::CallL(_) => InsView::Call(addr),
        InsView::JmpL(_) => InsView::Jmp(addr),
        InsView::JzL(_) => InsView::Jz(addr),
        InsView::JnzL(_) => InsView::Jnz(addr),
        InsView::JltL(_) => InsView::Jlt(addr),
        InsView::JgtL(_) => InsView::Jgt(addr),
        InsView::JleL(_) => InsView::Jle(addr),
        InsView::JgeL(_) => InsView::Jge(addr),
        _ => i,
    }
}

fn byte_len(i: &Ins) -> (n: u32)
    ensures
        n == ins_len(i@),
{
    match i {
        Ins::Nop => 1,
        Ins::Hlt => 1,
        Ins::Mov(..) => 2,
        Ins::Ldi(..) => 4,
        Ins::Ld(..) => 2,
        Ins::St(..) => 2,
        Ins::Ldb(..) => 2,
        Ins::Stb(..) => 2,
        Ins::Add(..) => 2,
        Ins::Sub(..) => 2,
        Ins::Mul(..) => 2,
        Ins::Div(..) => 2,
        Ins::Mod(..) => 2,
        Ins::And(..) => 2,
        Ins::Or(..) => 2,
        Ins::Xor(..) => 2,
        Ins::Not(..) => 2,
        Ins::Shl(..) => 2,
        Ins::Shr(..) => 2,
        Ins::Addi(..) => 4,
        Ins::Subi(..) => 4,
        Ins::Andi(..) => 4,
        Ins::Ori(..) => 4,
        Ins::Xori(..) => 4,
        Ins::Cmp(..) => 2,
        Ins::Cmpi(..) => 4,
        Ins::Push(..) => 2,
        Ins::Pop(..) => 2,
        Ins::Call(..) => 3,
        Ins::CallL(..) => 3,
        Ins::Ret => 1,
        Ins::Jmp(..) => 3,
        Ins::JmpL(..) => 3,
        Ins::Jz(..) => 3,
        Ins::JzL(..) => 3,
        Ins::Jnz(..) => 3,
        Ins::JnzL(..) => 3,
        Ins::Jlt(..) => 3,
        Ins::JltL(..) => 3,
        Ins::Jgt(..) => 3,
        Ins::JgtL(..) => 3,
        Ins::Jle(..) => 3,
        Ins::JleL(..) => 3,
        Ins::Jge(..) => 3,
        Ins::JgeL(..) => 3,
        Ins::Out(..) => 4,
        Ins::Label(..) => 0,
    }
}

fn pack_regs(d: u8, s: u8) -> (b: u8)
    ensures
        b == pack(d, s),
{
    assert((d << 4u8) | (s & 0x0Fu8) == ((d as int * 16) % 256 + s as int % 16) as u8) by (bit_vector);
    (d << 4u8) | (s & 0x0Fu8)
}

fn push_le16(out: &mut Vec<u8>, v: u32)
    ensures
        final(out)@ == old(out)@ + le16(v),
{
    out.push((v % 256) as u8);
    out.push(((v / 256) % 256) as u8);
    assert(out@ =~= old(out)@ + le16(v));
}

fn emit(i: &Ins, out: &mut Vec<u8>)
    ensures
        final(out)@ == old(out)@ + ins_bytes(i@),
{
    let ghost before = out@;
    match i {
        Ins::Nop => out.push(0x00u8),
        Ins::Hlt => out.push(0x01u8),
        Ins::Mov(d, s) => {
            out.push(0x02u8);
            out.push(pack_regs(*d, *s));
        },
        Ins::Ldi(d, v) => {
            out.push(0x03u8);
            out.push(pack_regs(*d, 0));
            push_le16(out, *v);
        },
        Ins::Ld(d, s) => {
            out.push(0x04u8);
            out.push(pack_regs(*d, *s));
        },
        Ins::St(d, s) => {
            out.push(0x05u8);
            out.push(pack_regs(*d, *s));
        },
        Ins::Ldb(d, s) => {
            out.push(0x06u8);
            out.push(pack_regs(*d, *s));
        },
        Ins::Stb(d, s) => {
            out.push(0x07u8);
            out.push(pack_regs(*d, *s));
        },
        Ins::Add(d, s) => {
            out.push(0x08u8);
            out.push(pack_regs(*d, *s));
        },
        Ins::Sub(d, s) => {
            out.push(0x09u8);
            out.push(pack_regs(*d, *s));
        },
        Ins::Mul(d, s) => {
            out.push(0x17u8);
            out.push(pack_regs(*d, *s));
        },
        Ins::Div(d, s) => {
            out.push(0x18u8);
            out.push(pack_regs(*d, *s));
        },
        Ins::Mod(d, s) => {
            out.push(0x19u8);
            out.push(pack_regs(*d, *s));
        },
        Ins::And(d, s) => {
            out.push(0x0au8);
            out.push(pack_regs(*d, *s));
        },
        Ins::Or(d, s) => {
            out.push(0x0bu8);
            out.push(pack_regs(*d, *s));
        },
        Ins::Xor(d, s) => {
            out.push(0x0cu8);
            out.push(pack_regs(*d, *s));
        },
        Ins::Not(d) => {
            out.push(0x0du8);
            out.push(pack_regs(*d, 0));
        },
        Ins::Shl(d, s) => {
            out.push(0x0eu8);
            out.push(pack_regs(*d, *s));
        },
        Ins::Shr(d, s) => {
            out.push(0x0fu8);
            out.push(pack_regs(*d, *s));
        },
        Ins::Addi(d, v) => {
            out.push(0x10u8);
            out.push(pack_regs(*d, 0));
            push_le16(out, *v);
        },
        Ins::Subi(d, v) => {
            out.push(0x11u8);
            out.push(pack_regs(*d, 0));
            push_le16(out, *v);
        },
        Ins::Andi(d, v) => {
            out.push(0x12u8);
            out.push(pack_regs(*d, 0));
            push_le16(out, *v);
        },
        Ins::Ori(d, v) => {
            out.push(0x13u8);
            out.push(pack_regs(*d, 0));
            push_le16(out, *v);
        },
        Ins::Xori(d, v) => {
            out.push(0x14u8);
            out.push(pack_regs(*d, 0));
            push_le16(out, *v);
        },
        Ins::Cmp(d, s) => {
            out.push(0x15u8);
            out.push(pack_regs(*d, *s));
        },
        Ins::Cmpi(d, v) => {
            out.push(0x16u8);
            out.push(pack_regs(*d, 0));
            push_le16(out, *v);
        },
        Ins::Push(s) => {
            out.push(0x20u8);
            out.push(pack_regs(*s, 0));
        },
        Ins::Pop(d) => {
            out.push(0x21u8);
            out.push(pack_regs(*d, 0));
        },
        Ins::Call(a) => {
            out.push(0x22u8);
            push_le16(out, *a);
        },
        Ins::CallL(_) => {},
        Ins::Ret => out.push(0x23u8),
        Ins::Jmp(a) => {
            out.push(0x30u8);
            push_le16(out, *a);
        },
        Ins::JmpL(_) => {},
        Ins::Jz(a) => {
            out.push(0x31u8);
            push_le16(out, *a);
        },
        Ins::JzL(_) => {},
        Ins::Jnz(a) => {
            out.push(0x32u8);
            push_le16(out, *a);
        },
        Ins::JnzL(_) => {},
        Ins::Jlt(a) => {
            out.push(0x3au8);
            push_le16(out, *a);
        },
        Ins::JltL(_) => {},
        Ins::Jgt(a) => {
            out.push(0x39u8);
            push_le16(out, *a);
        },
        Ins::JgtL(_) => {},
        Ins::Jle(a) => {
            out.push(0x3cu8);
            push_le16(out, *a);
        },
        Ins::JleL(_) => {},
        Ins::Jge(a) => {
            out.push(0x3bu8);
            push_le16(out, *a);
        },
        Ins::JgeL(_) => {},
        Ins::Out(d, v) => {
            out.push(0x41u8);
            out.push(pack_regs(*d, 0));
            push_le16(out, *v);
        },
        Ins::Label(_) => {},
    }
    assert(out@ =~= before + ins_bytes(i@));
}

fn target_of(i: &Ins) -> (r: Option<&str>)
    ensures
        match label_target(i@) {
            Some(l) => r is Some && r->Some_0@ == l,
            None => r is None,
        },
{
    match i {
        Ins::CallL(l) => Some(l.as_str()),
        Ins::JmpL(l) => Some(l.as_str()),
        Ins::JzL(l) => Some(l.as_str()),
        Ins::JnzL(l) => Some(l.as_str()),
        Ins::JltL(l) => Some(l.as_str()),
        Ins::JgtL(l) => Some(l.as_str()),
        Ins::JleL(l) => Some(l.as_str()),
        Ins::JgeL(l) => Some(l.as_str()),
        _ => None,
    }
}

fn resolved(i: &Ins, addr: u32) -> (r: Ins)
    requires
        label_target(i@) is Some,
    ensures
        r@ == with_addr(i@, addr),
{
    match i {
        Ins::CallL(_) => Ins::Call(addr),
        Ins::JmpL(_) => Ins::Jmp(addr),
        Ins::JzL(_) => Ins::Jz(addr),
        Ins::JnzL(_) => Ins::Jnz(addr),
        Ins::JltL(_) => Ins::Jlt(addr),
        Ins::JgtL(_) => Ins::Jgt(addr),
        Ins::JleL(_) => Ins::Jle(addr),
        Ins::JgeL(_) => Ins::Jge(addr),
        _ => Ins::Nop,
    }
}

/// The address of instruction `k`: the bytes counted for those before it.
pub open spec fn addr_before(code: Seq<InsView>, k: int) -> int
    decreases k,
{
    if k <= 0 {
        0
    } else {
        addr_before(code, k - 1) + ins_len(code[k - 1])
    }
}

/// The address bound to `name` by the last `Label(name)` among the first `k`
/// instructions.
pub open spec fn label_value(code: Seq<InsView>, k: int, name: Seq<char>) -> Option<int>
    decreases k,
{
    if k <= 0 {
        None
    } else if code[k - 1] == InsView::Label(name) {
        Some(addr_before(code, k - 1))
    } else {
        label_value(code, k - 1, name)
    }
}

/// Instruction `i` with its label reference resolved against `code`, or
/// `None` if it names a label that `code` does not define.
pub open spec fn resolve_in(code: Seq<InsView>, i: InsView) -> Option<InsView> {
    match label_target(i) {
        None => Some(i),
        Some(l) => match label_value(code, code.len() as int, l) {
            Some(a) => Some(with_addr(i, a as u32)),
            None => None,
        },
    }
}

/// The bytes of the first `k` instructions once their labels are resolved,
/// or `None` if one of them names an undefined label.
pub open spec fn linked_prefix(code: Seq<InsView>, k: int) -> Option<Seq<u8>>
    decreases k,
{
    if k <= 0 {
        Some(Seq::empty())
    } else {
        match (linked_prefix(code, k - 1), resolve_in(code, code[k - 1])) {
            (Some(b), Some(i)) => Some(b + ins_bytes(i)),
            _ => None,
        }
    }
}

/// The linked image of a program's instructions: `None` if a label is
/// undefined or the program does not fit below address 0xFFFF (addresses are
/// 16-bit).
pub open spec fn link_spec(code: Seq<InsView>) -> Option<Seq<u8>> {
    if addr_before(code, code.len() as int) > 0xFFFF {
        None
    } else {
        linked_prefix(code, code.len() as int)
    }
}

proof fn lemma_addr_mono(code: Seq<InsView>, j: int, k: int)
    requires
        0 <= j <= k,
    ensures
        addr_before(code, j) <= addr_before(code, k),
        addr_before(code, j) >= 0,
    decreases k,
{
    if j < k {
        lemma_addr_mono(code, j, k - 1);
    }
    if k > 0 {
        lemma_addr_mono(code, 0, k - 1);
    }
}

/// The address bound to a label, looked up from the latest binding.
fn find_label(labels: &Vec<(String, u32)>, name: &str) -> (r: Option<u32>)
    ensures
        r == latest_binding(labels@, name@),
{
    let key = chars_of(name);
    let mut i = labels.len();
    assert(labels@.take(i as int) =~= labels@);
    while i > 0
        invariant
            i <= labels@.len(),
            key@ == name@,
            latest_binding(labels@, name@) == latest_binding(labels@.take(i as int), name@),
        decreases i,
    {
        let k = chars_of(labels[i - 1].0.as_str());
        assert(labels@.take(i as int).drop_last() =~= labels@.take(i - 1));
        if chars_eq(k.as_slice(), key.as_slice()) {
            return Some(labels[i - 1].1);
        }
        i -= 1;
    }
    None
}

/// The value of the latest binding of `name`.
pub open spec fn latest_binding(bs: Seq<(String, u32)>, name: Seq<char>) -> Option<u32>
    decreases bs.len(),
{
    if bs.len() == 0 {
        None
    } else if bs.last().0@ == name {
        Some(bs.last().1)
    } else {
        latest_binding(bs.drop_last(), name)
    }
}

/// Resolve labels and emit the bytes of `code`.
pub fn link_code(code: Vec<Ins>) -> (r: Result<Vec<u8>>)
    ensures
        match link_spec(code_view(code@)) {
            Some(b) => r is Ok && r->Ok_0@ == b,
            None => r matches Err(CompileError::Codegen(_)),
        },
{
    let ghost cv = code_view(code@);
    let mut labels: Vec<(String, u32)> = Vec::new();
    let mut addr: u32 = 0;
    let mut k: usize = 0;
    while k < code.len()
        invariant
            cv == code_view(code@),
            k <= code@.len(),
            addr <= 0xFFFF,
            addr == addr_before(cv, k as int),
            forall|name: Seq<char>| #[trigger] latest_binding(labels@, name) == match label_value(cv, k as int, name) {
                Some(a) => Some(a as u32),
                None => None::<u32>,
            },
        decreases code@.len() - k,
    {
        let n = byte_len(&code[k]);
        match &code[k] {
            Ins::Label(name) => {
                let ghost before = labels@;
                let nm_copy = name.clone();
                assert(nm_copy@ == name@);
                labels.push((nm_copy, addr));
                assert(cv[k as int] == InsView::Label(name@));
                assert(labels@.last() == (nm_copy, addr));
                proof {
                    assert forall|nm: Seq<char>| #[trigger] latest_binding(labels@, nm) == match label_value(cv, k + 1, nm) {
                        Some(a) => Some(a as u32),
                        None => None::<u32>,
                    } by {
                        assert(labels@.drop_last() =~= before);
                        let prev = latest_binding(before, nm);
                        if nm != name@ {
                            assert(label_value(cv, k + 1, nm) == label_value(cv, k as int, nm));
                        }
                    }
                }
            },
            _ => {
                assert(forall|nm: Seq<char>| label_value(cv, k + 1, nm) == label_value(cv, k as int, nm));
            },
        }
        if n > 0xFFFF - addr {
            proof {
                lemma_addr_mono(cv, k + 1, cv.len() as int);
            }
            return Err(CompileError::Codegen(concat3("program too large", "", "")));
        }
        addr = addr + n;
        k += 1;
    }
    let mut out: Vec<u8> = Vec::new();
    let mut j: usize = 0;
    assert(linked_prefix(cv, 0) == Some(Seq::<u8>::empty()));
    while j < code.len()
        invariant
            cv == code_view(code@),
            k == code@.len(),
            j <= code@.len(),
            addr_before(cv, cv.len() as int) <= 0xFFFF,
            forall|name: Seq<char>| #[trigger] latest_binding(labels@, name) == match label_value(cv, cv.len() as int, name) {
                Some(a) => Some(a as u32),
                None => None::<u32>,
            },
            linked_prefix(cv, j as int) == Some(out@),
        decreases code@.len() - j,
    {
        let ins = &code[j];
        match target_of(ins) {
            None => {
                emit(ins, &mut out);
            },
            Some(l) => {
                match find_label(&labels, l) {
                    None => {
                        proof {
                            lemma_linked_fails(cv, j as int + 1);
                        }
                        return Err(CompileError::Codegen(concat3("undefined label '", l, "'")));
                    },
                    Some(a) => {
                        let r = resolved(ins, a);
                        emit(&r, &mut out);
                    },
                }
            },
        }
        j += 1;
    }
    Ok(out)
}

proof fn lemma_linked_fails(code: Seq<InsView>, k: int)
    requires
        0 <= k <= code.len(),
        linked_prefix(code, k) is None,
    ensures
        linked_prefix(code, code.len() as int) is None,
    decreases code.len() - k,
{
    if k < code.len() {
        lemma_linked_fails(code, k + 1);
    }
}

/// The index of the last `Label(name)` among the first `k` instructions.
pub open spec fn label_index(code: Seq<InsView>, k: int, name: Seq<char>) -> Option<int>
    decreases k,
{
    if k <= 0 {
        None
    } else if code[k - 1] == InsView::Label(name) {
        Some(k - 1)
    } else {
        label_index(code, k - 1, name)
    }
}

proof fn lemma_label_index(code: Seq<InsView>, k: int, name: Seq<char>)
    ensures
        label_value(code, k, name) is Some <==> label_index(code, k, name) is Some,
        label_index(code, k, name) matches Some(j) ==> 0 <= j < k && code[j] == InsView::Label(name)
            && label_value(code, k, name) == Some(addr_before(code, j)),
    decreases k,
{
    if k > 0 {
        lemma_label_index(code, k - 1, name);
    }
}

/// An instruction other than a label or an unresolved label reference is
/// encoded in exactly as many bytes as the linker counts for it (`not`
/// included: opcode and register byte).
pub proof fn lemma_encoding_length(i: InsView)
    requires
        label_target(i) is None,
        !(i is Label),
    ensures
        ins_bytes(i).len() == ins_len(i),
{
}

/// Every instruction resolves to exactly as many bytes as the linker counted
/// for it.
proof fn lemma_prefix_len(code: Seq<InsView>, k: int)
    requires
        0 <= k <= code.len(),
        linked_prefix(code, k) is Some,
    ensures
        linked_prefix(code, k).unwrap().len() == addr_before(code, k),
    decreases k,
{
    if k > 0 {
        lemma_prefix_len(code, k - 1);
        let i = code[k - 1];
        let r = resolve_in(code, i).unwrap();
        assert(ins_bytes(r).len() == ins_len(i));
    }
}

/// Linking only appends: an earlier prefix is the start of a later one.
proof fn lemma_prefix_grows(code: Seq<InsView>, j: int, k: int)
    requires
        0 <= j <= k <= code.len(),
        linked_prefix(code, k) is Some,
    ensures
        linked_prefix(code, j) is Some,
        linked_prefix(code, j).unwrap().len() <= linked_prefix(code, k).unwrap().len(),
        linked_prefix(code, k).unwrap().subrange(0, linked_prefix(code, j).unwrap().len() as int)
            == linked_prefix(code, j).unwrap(),
    decreases k - j,
{
    if j < k {
        lemma_prefix_grows(code, j, k - 1);
        let a = linked_prefix(code, j).unwrap();
        let p = linked_prefix(code, k - 1).unwrap();
        let q = linked_prefix(code, k).unwrap();
        assert(q.subrange(0, p.len() as int) =~= p);
        assert(q.subrange(0, a.len() as int) =~= p.subrange(0, a.len() as int));
    } else {
        let a = linked_prefix(code, j).unwrap();
        assert(a.subrange(0, a.len() as int) =~= a);
    }
}

/// In a linked program, every label resolves to the offset in the output at
/// which it stands: the bytes before that offset are exactly those of the
/// instructions before the label.
pub proof fn lemma_label_resolves_to_offset(code: Seq<InsView>, name: Seq<char>)
    requires
        link_spec(code) is Some,
        label_value(code, code.len() as int, name) is Some,
    ensures
        ({
            let j = label_index(code, code.len() as int, name).unwrap();
            let out = link_spec(code).unwrap();
            &&& code[j] == InsView::Label(name)
            &&& label_value(code, code.len() as int, name) == Some(linked_prefix(code, j).unwrap().len() as int)
            &&& out.subrange(0, linked_prefix(code, j).unwrap().len() as int) == linked_prefix(code, j).unwrap()
        }),
{
    let n = code.len() as int;
    lemma_label_index(code, n, name);
    let j = label_index(code, n, name).unwrap();
    lemma_prefix_grows(code, j, n);
    lemma_prefix_len(code, j);
}

/// Whether comparison `op` holds between two 16-bit register values, as the
/// language defines it: `<`, `>`, `<=`, `>=` on signed values, `==` and `!=`.
pub open spec fn comparison_holds(op: BinOp, x: u16, y: u16) -> bool {
    match op {
        BinOp::Lt => as_signed(x) < as_signed(y),
        BinOp::Gt => as_signed(x) > as_signed(y),
        BinOp::Le => as_signed(x) <= as_signed(y),
        BinOp::Ge => as_signed(x) >= as_signed(y),
        BinOp::Eq => x == y,
        BinOp::Ne => x != y,
        _ => false,
    }
}

/// An encoded jump to `t` reads back, as the machine decodes it, as a 3-byte
/// jump to `t`.
proof fn lemma_jump_decodes(opc: u8, t: u16)
    requires
        0x30 <= opc <= 0x3C,
    ensures
        decode_bytes(seq![opc] + le16(t as u32)) == Some((instr_of(opc, 0, t), 3nat)),
{
    let b = seq![opc] + le16(t as u32);
    assert(b[0] == opc && b[1] == (t % 256) as u8 && b[2] == ((t / 256) % 256) as u8);
    assert((((t % 256) as u8) + 256 * (((t / 256) % 256) as u8)) as u16 == t);
}

/// The jumps the code generator uses for a comparison `x op y`, once linked
/// to `target` and decoded and run by the machine on the flags that
/// `cmp x, y` leaves: the one it emits to skip code (`jump_unless`) is taken
/// exactly when the comparison fails, the one it emits to reach the "true"
/// value (`jump_if`) exactly when it holds.
pub proof fn lemma_comparison_jumps(op: BinOp, l: Seq<char>, target: u16, x: u16, y: u16, next_pc: u16, s: ExecView)
    requires
        is_comparison(op),
        s.flags == sub_flags(x, y),
    ensures
        decode_bytes(ins_bytes(with_addr(jump_unless(op, l), target as u32))) matches Some((iu, nu)) && nu == 3
            && execute_spec(iu, next_pc, s) == cont(if comparison_holds(op, x, y) { next_pc } else { target }, s),
        decode_bytes(ins_bytes(with_addr(jump_if(op, l), target as u32))) matches Some((ii, ni)) && ni == 3
            && execute_spec(ii, next_pc, s) == cont(if comparison_holds(op, x, y) { target } else { next_pc }, s),
{
    crate::executor::lemma_branch_after_compare(x, y, target, next_pc, s);
    lemma_jump_decodes(0x31, target);
    lemma_jump_decodes(0x32, target);
    lemma_jump_decodes(0x39, target);
    lemma_jump_decodes(0x3A, target);
    lemma_jump_decodes(0x3B, target);
    lemma_jump_decodes(0x3C, target);
}

// ── the code generator's model ───────────────────────────────────────────────

pub const R0: u8 = 0;
pub const R1: u8 = 1;
pub const R2: u8 = 2;
pub const R3: u8 = 3;
/// Address scratch register.
pub const R11: u8 = 11;
/// Frame pointer.
pub const R13: u8 = 13;
pub const SP: u8 = 14;

/// The names in scope: each scope's bindings (latest last) and the frame
/// offset at its entry, innermost scope last; and the current frame offset
/// (0 at function entry, 4 lower for each local).
pub struct CtxView {
    pub scopes: Seq<(Seq<(Seq<char>, i32)>, i32)>,
    pub fp: i32,
}

/// The generated code so far and the number of labels made.
pub struct GenState {
    pub code: Seq<InsView>,
    pub counter: u32,
}

/// The latest binding of `name` in one scope.
pub open spec fn scope_lookup(bs: Seq<(Seq<char>, i32)>, name: Seq<char>) -> Option<i32>
    decreases bs.len(),
{
    if bs.len() == 0 {
        None
    } else if bs.last().0 == name {
        Some(bs.last().1)
    } else {
        scope_lookup(bs.drop_last(), name)
    }
}

/// The frame offset of `name` in the innermost scope that binds it.
pub open spec fn scopes_lookup(scopes: Seq<(Seq<(Seq<char>, i32)>, i32)>, name: Seq<char>) -> Option<i32>
    decreases scopes.len(),
{
    if scopes.len() == 0 {
        None
    } else {
        match scope_lookup(scopes.last().0, name) {
            Some(off) => Some(off),
            None => scopes_lookup(scopes.drop_last(), name),
        }
    }
}

/// A context with a new local `name` four bytes below the current frame
/// offset, bound in the innermost scope (`None` past the frame offset range).
pub open spec fn alloc_local(c: CtxView, name: Seq<char>) -> Option<CtxView> {
    if c.fp - 4 < i32::MIN || c.scopes.len() == 0 {
        None
    } else {
        let fp = (c.fp - 4) as i32;
        let last = c.scopes.last();
        Some(CtxView { scopes: c.scopes.drop_last().push((last.0.push((name, fp)), last.1)), fp })
    }
}

pub open spec fn push_scope(c: CtxView) -> CtxView {
    CtxView { scopes: c.scopes.push((Seq::empty(), c.fp)), ..c }
}

/// Leaving the innermost scope: the context after it, and the bytes of
/// locals to drop from the stack.
pub open spec fn pop_scope(c: CtxView) -> (CtxView, u32) {
    let entry = c.scopes.last().1;
    (CtxView { scopes: c.scopes.drop_last(), fp: entry }, (entry - c.fp) as u32)
}

pub open spec fn emit1(st: GenState, i: InsView) -> GenState {
    GenState { code: st.code.push(i), ..st }
}

pub open spec fn emit_all(st: GenState, is: Seq<InsView>) -> GenState {
    GenState { code: st.code + is, ..st }
}

/// A fresh label `__L<n>` and the state after making it (`None` once the
/// counter is exhausted).
pub open spec fn new_label(st: GenState) -> Option<(Seq<char>, GenState)> {
    if st.counter == u32::MAX {
        None
    } else {
        let n = (st.counter + 1) as u32;
        Some((seq!['_', '_', 'L'] + dec_of(n as nat), GenState { counter: n, ..st }))
    }
}

/// The distance below the frame pointer of a (non-positive) frame offset.
pub open spec fn depth(off: i32) -> u32 {
    (0 - off) as u32
}

/// Load register `reg` from the local at frame offset `off`.
pub open spec fn load_seq(off: i32, reg: u8) -> Seq<InsView> {
    seq![InsView::Mov(R11, R13), InsView::Subi(R11, depth(off)), InsView::Ld(reg, R11)]
}

/// Store register `reg` to the local at frame offset `off`.
pub open spec fn store_seq(off: i32, reg: u8) -> Seq<InsView> {
    seq![InsView::Mov(R11, R13), InsView::Subi(R11, depth(off)), InsView::St(R11, reg)]
}

pub open spec fn epilogue() -> Seq<InsView> {
    seq![InsView::Mov(SP, R13), InsView::Pop(R13), InsView::Ret]
}

/// `pop r(n-1)`, …, `pop r0`.
pub open spec fn pops(n: nat) -> Seq<InsView>
    decreases n,
{
    if n == 0 {
        Seq::empty()
    } else {
        seq![InsView::Pop((n - 1) as u8)] + pops((n - 1) as nat)
    }
}

pub open spec fn is_comparison(op: BinOp) -> bool {
    op == BinOp::Eq || op == BinOp::Ne || op == BinOp::Lt || op == BinOp::Gt || op == BinOp::Le || op == BinOp::Ge
}

/// The jump taken when comparison `op` holds.
pub open spec fn jump_if(op: BinOp, l: Seq<char>) -> InsView {
    match op {
        BinOp::Eq => InsView::JzL(l),
        BinOp::Ne => InsView::JnzL(l),
        BinOp::Lt => InsView::JltL(l),
        BinOp::Gt => InsView::JgtL(l),
        BinOp::Le => InsView::JleL(l),
        _ => InsView::JgeL(l),
    }
}

/// The jump taken when comparison `op` fails.
pub open spec fn jump_unless(op: BinOp, l: Seq<char>) -> InsView {
    match op {
        BinOp::Lt => InsView::JgeL(l),
        BinOp::Gt => InsView::JleL(l),
        BinOp::Le => InsView::JgtL(l),
        BinOp::Ge => InsView::JltL(l),
        BinOp::Eq => InsView::JnzL(l),
        _ => InsView::JzL(l),
    }
}

/// The instruction computing `r1 op= r0` for an arithmetic or bitwise operator.
pub open spec fn arith(op: BinOp) -> InsView {
    match op {
        BinOp::Add => InsView::Add(R1, R0),
        BinOp::Sub => InsView::Sub(R1, R0),
        BinOp::Mul => InsView::Mul(R1, R0),
        BinOp::Div => InsView::Div(R1, R0),
        BinOp::Mod => InsView::Mod(R1, R0),
        BinOp::BitAnd => InsView::And(R1, R0),
        BinOp::BitOr => InsView::Or(R1, R0),
        _ => InsView::Xor(R1, R0),
    }
}

/// The code of expression `e` appended to `st`, leaving its value in `r0`
/// (`None`: an undefined variable or function, a misused intrinsic, or the
/// label counter exhausted).
pub open spec fn gen_expr(e: ExprView, c: CtxView, st: GenState, fns: Set<Seq<char>>) -> Option<GenState>
    decreases e, 0int,
{
    match e {
        ExprView::Lit(n) => Some(emit1(st, InsView::Ldi(R0, n))),
        ExprView::Var(name) => match scopes_lookup(c.scopes, name) {
            None => None,
            Some(off) => Some(emit_all(st, load_seq(off, R0))),
        },
        ExprView::Assign(name, rhs) => match gen_expr(*rhs, c, st, fns) {
            None => None,
            Some(s1) => match scopes_lookup(c.scopes, name) {
                None => None,
                Some(off) => Some(emit_all(s1, store_seq(off, R0))),
            },
        },
        ExprView::UnOp(op, x) => match gen_expr(*x, c, st, fns) {
            None => None,
            Some(s1) => match op {
                UnOp::Neg => Some(emit_all(s1, seq![InsView::Ldi(R1, 0), InsView::Sub(R1, R0), InsView::Mov(R0, R1)])),
                UnOp::Not => match new_label(s1) {
                    None => None,
                    Some((t, s2)) => match new_label(s2) {
                        None => None,
                        Some((en, s3)) => Some(emit_all(s3, seq![
                            InsView::Cmpi(R0, 0),
                            InsView::JnzL(t),
                            InsView::Ldi(R0, 1),
                            InsView::JmpL(en),
                            InsView::Label(t),
                            InsView::Ldi(R0, 0),
                            InsView::Label(en),
                        ])),
                    },
                },
            },
        },
        ExprView::BinOp(l, op, r) => if op == BinOp::And || op == BinOp::Or {
            let and = op == BinOp::And;
            match new_label(st) {
                None => None,
                Some((a, s1)) => match new_label(s1) {
                    None => None,
                    Some((b, s2)) => match gen_expr(*l, c, s2, fns) {
                        None => None,
                        Some(s3) => {
                            let j = if and { InsView::JzL(a) } else { InsView::JnzL(a) };
                            match gen_expr(*r, c, emit_all(s3, seq![InsView::Cmpi(R0, 0), j]), fns) {
                                None => None,
                                Some(s4) => Some(emit_all(s4, seq![
                                    InsView::Cmpi(R0, 0),
                                    j,
                                    InsView::Ldi(R0, if and { 1 } else { 0 }),
                                    InsView::JmpL(b),
                                    InsView::Label(a),
                                    InsView::Ldi(R0, if and { 0 } else { 1 }),
                                    InsView::Label(b),
                                ])),
                            }
                        },
                    },
                },
            }
        } else {
            match gen_expr(*l, c, st, fns) {
                None => None,
                Some(s1) => match gen_expr(*r, c, emit1(s1, InsView::Push(R0)), fns) {
                    None => None,
                    Some(s2) => {
                        let s3 = emit1(s2, InsView::Pop(R1));
                        if is_comparison(op) {
                            let s4 = emit1(s3, InsView::Cmp(R1, R0));
                            match new_label(s4) {
                                None => None,
                                Some((t, s5)) => match new_label(s5) {
                                    None => None,
                                    Some((en, s6)) => Some(emit_all(s6, seq![
                                        jump_if(op, t),
                                        InsView::Ldi(R0, 0),
                                        InsView::JmpL(en),
                                        InsView::Label(t),
                                        InsView::Ldi(R0, 1),
                                        InsView::Label(en),
                                    ])),
                                },
                            }
                        } else {
                            Some(emit_all(s3, seq![arith(op), InsView::Mov(R0, R1)]))
                        }
                    },
                },
            }
        },
        ExprView::Call(name, args) => if name == "hlt"@ {
            Some(emit1(st, InsView::Hlt))
        } else if name == "serial_write"@ {
            if args.len() != 1 {
                None
            } else {
                match gen_expr(args[0], c, st, fns) {
                    None => None,
                    Some(s1) => Some(emit1(s1, InsView::Out(R0, 0))),
                }
            }
        } else if name == "fb_write"@ {
            if args.len() != 3 {
                None
            } else {
                match gen_push_args(args, 3, c, st, fns) {
                    None => None,
                    Some(s1) => Some(emit_all(s1, pops(3) + seq![
                        InsView::Stb(R0, R1),
                        InsView::Addi(R0, 1),
                        InsView::Stb(R0, R2),
                    ])),
                }
            }
        } else if name == "mem_read_byte"@ {
            if args.len() != 1 {
                None
            } else {
                match gen_expr(args[0], c, st, fns) {
                    None => None,
                    Some(s1) => Some(emit1(s1, InsView::Ldb(R0, R0))),
                }
            }
        } else if name == "mem_write_byte"@ {
            if args.len() != 2 {
                None
            } else {
                match gen_push_args(args, 2, c, st, fns) {
                    None => None,
                    Some(s1) => Some(emit_all(s1, pops(2) + seq![InsView::Stb(R0, R1)])),
                }
            }
        } else if !fns.contains(name) {
            None
        } else {
            let n: nat = if args.len() < 4 { args.len() } else { 4 };
            match gen_push_args(args, n, c, st, fns) {
                None => None,
                Some(s1) => Some(emit_all(s1, pops(n) + seq![InsView::CallL(name)])),
            }
        },
    }
}

/// The code evaluating the first `k` arguments in order, pushing each.
pub open spec fn gen_push_args(args: Seq<ExprView>, k: nat, c: CtxView, st: GenState, fns: Set<Seq<char>>) -> Option<GenState>
    decreases args, k,
{
    if k == 0 || k > args.len() {
        if k == 0 { Some(st) } else { None }
    } else {
        match gen_push_args(args, (k - 1) as nat, c, st, fns) {
            None => None,
            Some(s1) => match gen_expr(args[k - 1], c, s1, fns) {
                None => None,
                Some(s2) => Some(emit1(s2, InsView::Push(R0))),
            },
        }
    }
}

/// The code that jumps to `false_lbl` when condition `e` is false.
pub open spec fn gen_cond(e: ExprView, false_lbl: Seq<char>, c: CtxView, st: GenState, fns: Set<Seq<char>>) -> Option<GenState> {
    match e {
        ExprView::BinOp(l, op, r) => if is_comparison(op) {
            match gen_expr(*l, c, st, fns) {
                None => None,
                Some(s1) => match gen_expr(*r, c, emit1(s1, InsView::Push(R0)), fns) {
                    None => None,
                    Some(s2) => Some(emit_all(s2, seq![
                        InsView::Pop(R1),
                        InsView::Cmp(R1, R0),
                        jump_unless(op, false_lbl),
                    ])),
                },
            }
        } else {
            match gen_expr(e, c, st, fns) {
                None => None,
                Some(s1) => Some(emit_all(s1, seq![InsView::Cmpi(R0, 0), InsView::JzL(false_lbl)])),
            }
        },
        _ => match gen_expr(e, c, st, fns) {
            None => None,
            Some(s1) => Some(emit_all(s1, seq![InsView::Cmpi(R0, 0), InsView::JzL(false_lbl)])),
        },
    }
}

/// Drop the stack bytes of a scope's locals, if any.
pub open spec fn drop_bytes(st: GenState, bytes: u32) -> GenState {
    if bytes > 0 { emit1(st, InsView::Addi(SP, bytes)) } else { st }
}

/// A block in a new scope: its code, and the context after leaving it.
pub open spec fn gen_block(body: Seq<StmtView>, c: CtxView, st: GenState, fns: Set<Seq<char>>) -> Option<(CtxView, GenState)>
    decreases body, body.len() + 1,
{
    match gen_stmts(body, body.len(), push_scope(c), st, fns) {
        None => None,
        Some((c1, s1)) => {
            let (c2, bytes) = pop_scope(c1);
            Some((c2, drop_bytes(s1, bytes)))
        },
    }
}

/// The code of statement `s` and the context after it.
pub open spec fn gen_stmt(s: StmtView, c: CtxView, st: GenState, fns: Set<Seq<char>>) -> Option<(CtxView, GenState)>
    decreases s, 0int,
{
    match s {
        StmtView::Let { name, init, .. } => {
            let s1 = match init {
                Some(e) => gen_expr(e, c, st, fns),
                None => Some(emit1(st, InsView::Ldi(R0, 0))),
            };
            match s1 {
                None => None,
                Some(s1) => match alloc_local(c, name) {
                    None => None,
                    Some(c1) => Some((c1, emit1(s1, InsView::Push(R0)))),
                },
            }
        },
        StmtView::Expr(e) => match gen_expr(e, c, st, fns) {
            None => None,
            Some(s1) => Some((c, s1)),
        },
        StmtView::If { cond, then_body, else_body } => match new_label(st) {
            None => None,
            Some((el, s1)) => match new_label(s1) {
                None => None,
                Some((en, s2)) => match gen_cond(cond, el, c, s2, fns) {
                    None => None,
                    Some(s3) => match gen_block(then_body, c, s3, fns) {
                        None => None,
                        Some((c1, s4)) => {
                            let s5 = if else_body.len() > 0 { emit1(s4, InsView::JmpL(en)) } else { s4 };
                            let s6 = emit1(s5, InsView::Label(el));
                            if else_body.len() > 0 {
                                match gen_block(else_body, c1, s6, fns) {
                                    None => None,
                                    Some((c2, s7)) => Some((c2, emit1(s7, InsView::Label(en)))),
                                }
                            } else {
                                Some((c1, s6))
                            }
                        },
                    },
                },
            },
        },
        StmtView::While { cond, body } => match new_label(st) {
            None => None,
            Some((lp, s1)) => match new_label(s1) {
                None => None,
                Some((en, s2)) => match gen_cond(cond, en, c, emit1(s2, InsView::Label(lp)), fns) {
                    None => None,
                    Some(s3) => match gen_block(body, c, s3, fns) {
                        None => None,
                        Some((c1, s4)) => Some((c1, emit_all(s4, seq![InsView::JmpL(lp), InsView::Label(en)]))),
                    },
                },
            },
        },
        StmtView::Loop { body } => match new_label(st) {
            None => None,
            Some((lp, s1)) => match new_label(s1) {
                None => None,
                Some((en, s2)) => match gen_block(body, c, emit1(s2, InsView::Label(lp)), fns) {
                    None => None,
                    Some((c1, s3)) => Some((c1, emit_all(s3, seq![InsView::JmpL(lp), InsView::Label(en)]))),
                },
            },
        },
        StmtView::Return(v) => {
            let s1 = match v {
                Some(e) => gen_expr(e, c, st, fns),
                None => Some(st),
            };
            match s1 {
                None => None,
                Some(s1) => Some((c, emit_all(s1, epilogue()))),
            }
        },
    }
}

/// The code of the first `k` statements of `ss` and the context after them.
pub open spec fn gen_stmts(ss: Seq<StmtView>, k: nat, c: CtxView, st: GenState, fns: Set<Seq<char>>) -> Option<(CtxView, GenState)>
    decreases ss, k,
{
    if k == 0 || k > ss.len() {
        if k == 0 { Some((c, st)) } else { None }
    } else {
        match gen_stmts(ss, (k - 1) as nat, c, st, fns) {
            None => None,
            Some((c1, s1)) => gen_stmt(ss[k - 1], c1, s1, fns),
        }
    }
}

/// Push the first `k` register arguments (`r0`…) and bind the first `k`
/// parameters to them as locals.
pub open spec fn gen_spill(params: Seq<(Seq<char>, Type)>, k: nat, c: CtxView, st: GenState) -> Option<(CtxView, GenState)>
    decreases k,
{
    if k == 0 {
        Some((c, st))
    } else if k > params.len() || k > 4 {
        None
    } else {
        match gen_spill(params, (k - 1) as nat, c, st) {
            None => None,
            Some((c1, s1)) => match alloc_local(c1, params[k - 1].0) {
                None => None,
                Some(c2) => Some((c2, emit1(s1, InsView::Push((k - 1) as u8)))),
            },
        }
    }
}

/// The context at a function's entry: one empty scope at frame offset 0.
pub open spec fn entry_ctx() -> CtxView {
    CtxView { scopes: seq![(Seq::empty(), 0i32)], fp: 0 }
}

/// The code of a function: its label, the prologue, the spilled register
/// arguments, its body and a closing epilogue (`None` with more than four
/// parameters or an error in the body).
pub open spec fn gen_fn(f: FunctionView, st: GenState, fns: Set<Seq<char>>) -> Option<GenState> {
    let s1 = emit_all(st, seq![InsView::Label(f.name), InsView::Push(R13), InsView::Mov(R13, SP)]);
    let n: nat = if f.params.len() < 4 { f.params.len() } else { 4 };
    match gen_spill(f.params, n, entry_ctx(), s1) {
        None => None,
        Some((c1, s2)) => if f.params.len() > 4 {
            None
        } else {
            match gen_stmts(f.body, f.body.len(), c1, s2, fns) {
                None => None,
                Some((_, s3)) => Some(emit_all(s3, epilogue())),
            }
        },
    }
}

/// The code of the first `k` functions.
pub open spec fn gen_fns(fs: Seq<FunctionView>, k: nat, st: GenState, fns: Set<Seq<char>>) -> Option<GenState>
    decreases k,
{
    if k == 0 {
        Some(st)
    } else if k > fs.len() {
        None
    } else {
        match gen_fns(fs, (k - 1) as nat, st, fns) {
            None => None,
            Some(s1) => gen_fn(fs[k - 1], s1, fns),
        }
    }
}

/// The names of a program's functions.
pub open spec fn fn_names(fs: Seq<FunctionView>) -> Set<Seq<char>> {
    fs.map_values(|f: FunctionView| f.name).to_set()
}

/// What compiling `fs` from a generator holding `code`, `counter` labels and
/// `known` function names gives: the linked image and the label count
/// after it, or `None` on a compile error.
pub open spec fn compile_spec(code: Seq<InsView>, counter: u32, known: Set<Seq<char>>, fs: Seq<FunctionView>) -> Option<(Seq<u8>, u32)> {
    let st0 = GenState { code: code + seq![InsView::CallL("main"@), InsView::Hlt], counter };
    match gen_fns(fs, fs.len(), st0, known.union(fn_names(fs))) {
        None => None,
        Some(st1) => match link_spec(st1.code) {
            None => None,
            Some(b) => Some((b, st1.counter)),
        },
    }
}

// ── the code generator ───────────────────────────────────────────────────────

/// Names in scope during the compilation of one function.
struct Ctx {
    scopes: Vec<(Vec<(String, i32)>, i32)>,
    fp_offset: i32,
}

pub open spec fn bindings_view(bs: Seq<(String, i32)>) -> Seq<(Seq<char>, i32)> {
    bs.map_values(|b: (String, i32)| (b.0@, b.1))
}

pub open spec fn scopes_view(ss: Seq<(Vec<(String, i32)>, i32)>) -> Seq<(Seq<(Seq<char>, i32)>, i32)> {
    ss.map_values(|sc: (Vec<(String, i32)>, i32)| (bindings_view(sc.0@), sc.1))
}

impl View for Ctx {
    type V = CtxView;

    closed spec fn view(&self) -> CtxView {
        CtxView { scopes: scopes_view(self.scopes@), fp: self.fp_offset }
    }
}

impl Ctx {
    fn new() -> (c: Self)
        ensures
            c@ == entry_ctx(),
            c.scopes@.len() == 1,
    {
        let mut scopes: Vec<(Vec<(String, i32)>, i32)> = Vec::new();
        scopes.push((Vec::new(), 0));
        let c = Ctx { scopes, fp_offset: 0 };
        assert(c@.scopes =~= entry_ctx().scopes) by {
            assert(bindings_view(Seq::<(String, i32)>::empty()) =~= Seq::<(Seq<char>, i32)>::empty());
        }
        c
    }

    fn push_scope(&mut self)
        ensures
            final(self)@ == push_scope(old(self)@),
            final(self).scopes@.len() == old(self).scopes@.len() + 1,
    {
        self.scopes.push((Vec::new(), self.fp_offset));
        assert(bindings_view(Seq::<(String, i32)>::empty()) =~= Seq::<(Seq<char>, i32)>::empty());
        assert(self@.scopes =~= push_scope(old(self)@).scopes);
    }

    fn pop_scope(&mut self) -> (bytes: u32)
        requires
            old(self).scopes@.len() >= 1,
        ensures
            (final(self)@, bytes) == pop_scope(old(self)@),
            final(self).scopes@.len() == old(self).scopes@.len() - 1,
    {
        let ghost old_scopes = self.scopes@;
        let (_, entry) = self.scopes.pop().unwrap();
        let bytes = (entry as i64 - self.fp_offset as i64) as u32;
        self.fp_offset = entry;
        assert(self@.scopes =~= scopes_view(old_scopes).drop_last());
        bytes
    }

    fn alloc_local(&mut self, name: &String) -> (ok: bool)
        ensures
            match alloc_local(old(self)@, name@) {
                Some(c) => ok && final(self)@ == c,
                None => !ok && final(self)@ == old(self)@,
            },
            final(self).scopes@.len() == old(self).scopes@.len(),
    {
        if self.fp_offset < i32::MIN + 4 || self.scopes.len() == 0 {
            return false;
        }
        let ghost old_scopes = self.scopes@;
        let (mut bs, entry) = self.scopes.pop().unwrap();
        let fp = self.fp_offset - 4;
        bs.push((name.clone(), fp));
        self.scopes.push((bs, entry));
        self.fp_offset = fp;
        assert(self@.scopes =~= alloc_local(old(self)@, name@).unwrap().scopes) by {
            assert(bindings_view(bs@) =~= bindings_view(old_scopes.last().0@).push((name@, fp)));
        }
        true
    }

    fn lookup(&self, name: &str) -> (r: Option<i32>)
        ensures
            r == scopes_lookup(self@.scopes, name@),
    {
        let key = chars_of(name);
        let mut i = self.scopes.len();
        assert(scopes_view(self.scopes@).take(i as int) =~= scopes_view(self.scopes@));
        while i > 0
            invariant
                i <= self.scopes@.len(),
                key@ == name@,
                scopes_lookup(self@.scopes, name@) == scopes_lookup(scopes_view(self.scopes@).take(i as int), name@),
            decreases i,
        {
            let bs = &self.scopes[i - 1].0;
            let mut j = bs.len();
            let ghost bv = bindings_view(bs@);
            assert(bv.take(j as int) =~= bv);
            assert(scopes_view(self.scopes@).take(i as int).last().0 == bv);
            while j > 0
                invariant
                    j <= bs@.len(),
                    bv == bindings_view(bs@),
                    key@ == name@,
                    0 < i <= self.scopes@.len(),
                    scopes_view(self.scopes@).take(i as int).last().0 == bv,
                    scopes_lookup(self@.scopes, name@) == scopes_lookup(scopes_view(self.scopes@).take(i as int), name@),
                    scope_lookup(bv, name@) == scope_lookup(bv.take(j as int), name@),
                decreases j,
            {
                let k = chars_of(bs[j - 1].0.as_str());
                assert(bv.take(j as int).drop_last() =~= bv.take(j - 1));
                if chars_eq(k.as_slice(), key.as_slice()) {
                    return Some(bs[j - 1].1);
                }
                j -= 1;
            }
            assert(scopes_view(self.scopes@).take(i as int).drop_last() =~= scopes_view(self.scopes@).take(i - 1));
            assert(scopes_view(self.scopes@).take(i as int).last().0 == bv);
            i -= 1;
        }
        None
    }
}

pub open spec fn names_view(v: Seq<String>) -> Seq<Seq<char>> {
    v.map_values(|s: String| s@)
}

pub struct Codegen {
    code: Vec<Ins>,
    label_counter: u32,
    known_fns: Vec<String>,
}

fn codegen_error(msg: &str) -> (e: CompileError)
    ensures
        e is Codegen,
{
    CompileError::Codegen(msg.to_owned())
}

/// The label `__L<n>`.
fn label_name(n: u32) -> (s: String)
    ensures
        s@ == seq!['_', '_', 'L'] + dec_of(n as nat),
{
    let mut s = String::new();
    push_chars(&mut s, &['_', '_', 'L']);
    push_dec(&mut s, n as u64);
    s
}

impl Codegen {
    /// The code generated so far and the labels made.
    pub closed spec fn state(&self) -> GenState {
        GenState { code: code_view(self.code@), counter: self.label_counter }
    }

    /// The function names calls may refer to.
    pub closed spec fn known(&self) -> Set<Seq<char>> {
        names_view(self.known_fns@).to_set()
    }

    pub fn new() -> (g: Self)
        ensures
            g.state().code == Seq::<InsView>::empty(),
            g.state().counter == 0,
            g.known() == Set::<Seq<char>>::empty(),
    {
        let g = Codegen { code: Vec::new(), label_counter: 0, known_fns: Vec::new() };
        assert(g.state().code =~= Seq::<InsView>::empty());
        assert(g.known() =~= Set::<Seq<char>>::empty());
        g
    }

    fn emit(&mut self, i: Ins)
        ensures
            final(self).state() == emit1(old(self).state(), i@),
            final(self).known() == old(self).known(),
    {
        self.code.push(i);
        assert(code_view(self.code@) =~= code_view(old(self).code@).push(i@));
    }

    fn emit3(&mut self, a: Ins, b: Ins, c: Ins)
        ensures
            final(self).state() == emit_all(old(self).state(), seq![a@, b@, c@]),
            final(self).known() == old(self).known(),
    {
        let ghost st = self.state();
        self.emit(a);
        self.emit(b);
        self.emit(c);
        assert(self.state().code =~= emit_all(st, seq![a@, b@, c@]).code);
    }

    fn new_label(&mut self) -> (r: Option<String>)
        ensures
            final(self).known() == old(self).known(),
            match new_label(old(self).state()) {
                Some((l, st)) => r is Some && r->Some_0@ == l && final(self).state() == st,
                None => r is None,
            },
    {
        if self.label_counter == u32::MAX {
            return None;
        }
        self.label_counter += 1;
        Some(label_name(self.label_counter))
    }

    fn is_known(&self, name: &str) -> (b: bool)
        ensures
            b == self.known().contains(name@),
    {
        let key = chars_of(name);
        let mut i: usize = 0;
        while i < self.known_fns.len()
            invariant
                i <= self.known_fns@.len(),
                key@ == name@,
                forall|j: int| 0 <= j < i ==> self.known_fns@[j]@ != name@,
            decreases self.known_fns@.len() - i,
        {
            let k = chars_of(self.known_fns[i].as_str());
            if chars_eq(k.as_slice(), key.as_slice()) {
                assert(names_view(self.known_fns@)[i as int] == name@);
                return true;
            }
            i += 1;
        }
        assert(!self.known().contains(name@)) by {
            if self.known().contains(name@) {
                let j = choose|j: int| 0 <= j < self.known_fns@.len() && #[trigger] names_view(self.known_fns@)[j] == name@;
                assert(self.known_fns@[j]@ == name@);
            }
        }
        false
    }

    fn emit_load(&mut self, off: i32, reg: u8)
        ensures
            final(self).state() == emit_all(old(self).state(), load_seq(off, reg)),
            final(self).known() == old(self).known(),
    {
        let abs = (0i64 - off as i64) as u32;
        self.emit3(Ins::Mov(R11, R13), Ins::Subi(R11, abs), Ins::Ld(reg, R11));
    }

    fn emit_store(&mut self, off: i32, reg: u8)
        ensures
            final(self).state() == emit_all(old(self).state(), store_seq(off, reg)),
            final(self).known() == old(self).known(),
    {
        let abs = (0i64 - off as i64) as u32;
        self.emit3(Ins::Mov(R11, R13), Ins::Subi(R11, abs), Ins::St(R11, reg));
    }

    fn emit_pops(&mut self, n: u8)
        ensures
            final(self).state() == emit_all(old(self).state(), pops(n as nat)),
            final(self).known() == old(self).known(),
        decreases n,
    {
        let ghost st = self.state();
        if n > 0 {
            self.emit(Ins::Pop(n - 1));
            self.emit_pops(n - 1);
        }
        assert(self.state().code =~= emit_all(st, pops(n as nat)).code);
    }

    /// Emit code that leaves the value of `e` in `r0`.
    fn compile_expr(&mut self, e: &Expr, ctx: &Ctx) -> (r: Result<()>)
        ensures
            final(self).known() == old(self).known(),
            match gen_expr(e@, ctx@, old(self).state(), old(self).known()) {
                Some(st) => r is Ok && final(self).state() == st,
                None => r matches Err(CompileError::Codegen(_)),
            },
        decreases *e, 2int,
    {
        let ghost st0 = self.state();
        match e {
            Expr::Lit(n) => {
                self.emit(Ins::Ldi(R0, *n));
            },
            Expr::Var(name) => {
                match ctx.lookup(name.as_str()) {
                    None => {
                        return Err(CompileError::Codegen(concat3("undefined variable '", name.as_str(), "'")));
                    },
                    Some(off) => self.emit_load(off, R0),
                }
            },
            Expr::Assign(name, rhs) => {
                self.compile_expr(rhs, ctx)?;
                match ctx.lookup(name.as_str()) {
                    None => {
                        return Err(CompileError::Codegen(concat3("undefined variable '", name.as_str(), "'")));
                    },
                    Some(off) => self.emit_store(off, R0),
                }
            },
            Expr::UnOp(op, inner) => {
                self.compile_expr(inner, ctx)?;
                match op {
                    UnOp::Neg => {
                        self.emit3(Ins::Ldi(R1, 0), Ins::Sub(R1, R0), Ins::Mov(R0, R1));
                    },
                    UnOp::Not => {
                        let t = match self.new_label() {
                            Some(l) => l,
                            None => return Err(codegen_error("too many labels")),
                        };
                        let en = match self.new_label() {
                            Some(l) => l,
                            None => return Err(codegen_error("too many labels")),
                        };
                        let ghost s3 = self.state();
                        self.emit(Ins::Cmpi(R0, 0));
                        self.emit(Ins::JnzL(t.clone()));
                        self.emit(Ins::Ldi(R0, 1));
                        self.emit(Ins::JmpL(en.clone()));
                        self.emit(Ins::Label(t));
                        self.emit(Ins::Ldi(R0, 0));
                        self.emit(Ins::Label(en));
                        assert(self.state().code =~= emit_all(s3, seq![
                            InsView::Cmpi(R0, 0),
                            InsView::JnzL(t@),
                            InsView::Ldi(R0, 1),
                            InsView::JmpL(en@),
                            InsView::Label(t@),
                            InsView::Ldi(R0, 0),
                            InsView::Label(en@),
                        ]).code);
                    },
                }
            },
            Expr::BinOp(left, op, right) => {
                return self.compile_binop(e, left, *op, right, ctx);
            },
            Expr::Call(name, args) => {
                return self.compile_call(e, name, args, ctx);
            },
        }
        Ok(())
    }

    fn compile_binop(&mut self, e: &Expr, left: &Expr, op: BinOp, right: &Expr, ctx: &Ctx) -> (r: Result<()>)
        requires
            *e == Expr::BinOp(Box::new(*left), op, Box::new(*right)),
        ensures
            final(self).known() == old(self).known(),
            match gen_expr(e@, ctx@, old(self).state(), old(self).known()) {
                Some(st) => r is Ok && final(self).state() == st,
                None => r matches Err(CompileError::Codegen(_)),
            },
        decreases *e, 1int,
    {
        if op == BinOp::And || op == BinOp::Or {
            return self.compile_logic(e, left, op, right, ctx);
        }
        self.compile_expr(left, ctx)?;
        self.emit(Ins::Push(R0));
        self.compile_expr(right, ctx)?;
        self.emit(Ins::Pop(R1));
        let ghost s3 = self.state();
        match op {
            BinOp::Eq | BinOp::Ne | BinOp::Lt | BinOp::Gt | BinOp::Le | BinOp::Ge => {
                self.emit(Ins::Cmp(R1, R0));
                let t = match self.new_label() {
                    Some(l) => l,
                    None => return Err(codegen_error("too many labels")),
                };
                let en = match self.new_label() {
                    Some(l) => l,
                    None => return Err(codegen_error("too many labels")),
                };
                let ghost s6 = self.state();
                let jump = match op {
                    BinOp::Eq => Ins::JzL(t.clone()),
                    BinOp::Ne => Ins::JnzL(t.clone()),
                    BinOp::Lt => Ins::JltL(t.clone()),
                    BinOp::Gt => Ins::JgtL(t.clone()),
                    BinOp::Le => Ins::JleL(t.clone()),
                    _ => Ins::JgeL(t.clone()),
                };
                assert(jump@ == jump_if(op, t@));
                self.emit(jump);
                self.emit(Ins::Ldi(R0, 0));
                self.emit(Ins::JmpL(en.clone()));
                self.emit(Ins::Label(t));
                self.emit(Ins::Ldi(R0, 1));
                self.emit(Ins::Label(en));
                assert(self.state().code =~= emit_all(s6, seq![
                    jump_if(op, t@),
                    InsView::Ldi(R0, 0),
                    InsView::JmpL(en@),
                    InsView::Label(t@),
                    InsView::Ldi(R0, 1),
                    InsView::Label(en@),
                ]).code);
            },
            _ => {
                let ins = match op {
                    BinOp::Add => Ins::Add(R1, R0),
                    BinOp::Sub => Ins::Sub(R1, R0),
                    BinOp::Mul => Ins::Mul(R1, R0),
                    BinOp::Div => Ins::Div(R1, R0),
                    BinOp::Mod => Ins::Mod(R1, R0),
                    BinOp::BitAnd => Ins::And(R1, R0),
                    BinOp::BitOr => Ins::Or(R1, R0),
                    _ => Ins::Xor(R1, R0),
                };
                assert(ins@ == arith(op));
                self.emit(ins);
                self.emit(Ins::Mov(R0, R1));
                assert(self.state().code =~= emit_all(s3, seq![arith(op), InsView::Mov(R0, R1)]).code);
            },
        }
        Ok(())
    }

    fn compile_logic(&mut self, e: &Expr, left: &Expr, op: BinOp, right: &Expr, ctx: &Ctx) -> (r: Result<()>)
        requires
            *e == Expr::BinOp(Box::new(*left), op, Box::new(*right)),
            op == BinOp::And || op == BinOp::Or,
        ensures
            final(self).known() == old(self).known(),
            match gen_expr(e@, ctx@, old(self).state(), old(self).known()) {
                Some(st) => r is Ok && final(self).state() == st,
                None => r matches Err(CompileError::Codegen(_)),
            },
        decreases *e, 0int,
    {
        let and = op == BinOp::And;
        let a = match self.new_label() {
            Some(l) => l,
            None => return Err(codegen_error("too many labels")),
        };
        let b = match self.new_label() {
            Some(l) => l,
            None => return Err(codegen_error("too many labels")),
        };
        self.compile_expr(left, ctx)?;
        let ghost s3 = self.state();
        self.emit(Ins::Cmpi(R0, 0));
        self.emit(if and { Ins::JzL(a.clone()) } else { Ins::JnzL(a.clone()) });
        let ghost j = if and { InsView::JzL(a@) } else { InsView::JnzL(a@) };
        assert(self.state() == emit_all(s3, seq![InsView::Cmpi(R0, 0), j])) by {
            assert(self.state().code =~= emit_all(s3, seq![InsView::Cmpi(R0, 0), j]).code);
        }
        self.compile_expr(right, ctx)?;
        let ghost s4 = self.state();
        self.emit(Ins::Cmpi(R0, 0));
        self.emit(if and { Ins::JzL(a.clone()) } else { Ins::JnzL(a.clone()) });
        self.emit(Ins::Ldi(R0, if and { 1 } else { 0 }));
        self.emit(Ins::JmpL(b.clone()));
        self.emit(Ins::Label(a));
        self.emit(Ins::Ldi(R0, if and { 0 } else { 1 }));
        self.emit(Ins::Label(b));
        assert(self.state().code =~= emit_all(s4, seq![
            InsView::Cmpi(R0, 0),
            j,
            InsView::Ldi(R0, if and { 1 } else { 0 }),
            InsView::JmpL(b@),
            InsView::Label(a@),
            InsView::Ldi(R0, if and { 0 } else { 1 }),
            InsView::Label(b@),
        ]).code);
        return Ok(());
    }

    fn compile_call(&mut self, e: &Expr, name: &String, args: &Vec<Expr>, ctx: &Ctx) -> (r: Result<()>)
        requires
            *e == Expr::Call(*name, *args),
        ensures
            final(self).known() == old(self).known(),
            match gen_expr(e@, ctx@, old(self).state(), old(self).known()) {
                Some(st) => r is Ok && final(self).state() == st,
                None => r matches Err(CompileError::Codegen(_)),
            },
        decreases *e, 1int,
    {
        proof {
            lemma_exprs_view_index(args@);
        }
        if string_is(name, "hlt") {
            self.emit(Ins::Hlt);
            return Ok(());
        }
        if string_is(name, "serial_write") {
            if args.len() != 1 {
                return Err(codegen_error("serial_write takes 1 arg"));
            }
            self.compile_expr(&args[0], ctx)?;
            self.emit(Ins::Out(R0, 0));
            return Ok(());
        }
        if string_is(name, "fb_write") {
            if args.len() != 3 {
                return Err(codegen_error("fb_write takes 3 args"));
            }
            self.compile_push_args(args, 3, ctx)?;
            let ghost s1 = self.state();
            self.emit_pops(3);
            self.emit3(Ins::Stb(R0, R1), Ins::Addi(R0, 1), Ins::Stb(R0, R2));
            assert(self.state().code =~= emit_all(s1, pops(3) + seq![
                InsView::Stb(R0, R1),
                InsView::Addi(R0, 1),
                InsView::Stb(R0, R2),
            ]).code);
            return Ok(());
        }
        if string_is(name, "mem_read_byte") {
            if args.len() != 1 {
                return Err(codegen_error("mem_read_byte takes 1 arg"));
            }
            self.compile_expr(&args[0], ctx)?;
            self.emit(Ins::Ldb(R0, R0));
            return Ok(());
        }
        if string_is(name, "mem_write_byte") {
            if args.len() != 2 {
                return Err(codegen_error("mem_write_byte takes 2 args"));
            }
            self.compile_push_args(args, 2, ctx)?;
            let ghost s1 = self.state();
            self.emit_pops(2);
            self.emit(Ins::Stb(R0, R1));
            assert(self.state().code =~= emit_all(s1, pops(2) + seq![InsView::Stb(R0, R1)]).code);
            return Ok(());
        }
        if !self.is_known(name.as_str()) {
            return Err(CompileError::Codegen(concat3("undefined function '", name.as_str(), "'")));
        }
        let n: usize = if args.len() < 4 { args.len() } else { 4 };
        self.compile_push_args(args, n, ctx)?;
        let ghost s1 = self.state();
        self.emit_pops(n as u8);
        self.emit(Ins::CallL(name.clone()));
        assert(self.state().code =~= emit_all(s1, pops(n as nat) + seq![InsView::CallL(name@)]).code);
        Ok(())
    }

    /// Evaluate the first `k` arguments in order, pushing each.
    fn compile_push_args(&mut self, args: &Vec<Expr>, k: usize, ctx: &Ctx) -> (r: Result<()>)
        requires
            k <= args@.len(),
        ensures
            final(self).known() == old(self).known(),
            match gen_push_args(exprs_view(args@), k as nat, ctx@, old(self).state(), old(self).known()) {
                Some(st) => r is Ok && final(self).state() == st,
                None => r matches Err(CompileError::Codegen(_)),
            },
        decreases args@, k,
    {
        proof {
            lemma_exprs_view_index(args@);
        }
        if k == 0 {
            return Ok(());
        }
        self.compile_push_args(args, k - 1, ctx)?;
        self.compile_expr(&args[k - 1], ctx)?;
        self.emit(Ins::Push(R0));
        Ok(())
    }

    /// Emit code that jumps to `false_lbl` when `e` is false.
    fn compile_cond(&mut self, e: &Expr, false_lbl: &String, ctx: &Ctx) -> (r: Result<()>)
        ensures
            final(self).known() == old(self).known(),
            match gen_cond(e@, false_lbl@, ctx@, old(self).state(), old(self).known()) {
                Some(st) => r is Ok && final(self).state() == st,
                None => r matches Err(CompileError::Codegen(_)),
            },
    {
        match e {
            Expr::BinOp(left, op, right) => {
                if *op == BinOp::Eq || *op == BinOp::Ne || *op == BinOp::Lt || *op == BinOp::Gt || *op == BinOp::Le
                    || *op == BinOp::Ge {
                    self.compile_expr(left, ctx)?;
                    self.emit(Ins::Push(R0));
                    self.compile_expr(right, ctx)?;
                    let ghost s2 = self.state();
                    let jump = match op {
                        BinOp::Lt => Ins::JgeL(false_lbl.clone()),
                        BinOp::Gt => Ins::JleL(false_lbl.clone()),
                        BinOp::Le => Ins::JgtL(false_lbl.clone()),
                        BinOp::Ge => Ins::JltL(false_lbl.clone()),
                        BinOp::Eq => Ins::JnzL(false_lbl.clone()),
                        _ => Ins::JzL(false_lbl.clone()),
                    };
                    assert(jump@ == jump_unless(*op, false_lbl@));
                    self.emit3(Ins::Pop(R1), Ins::Cmp(R1, R0), jump);
                    return Ok(());
                }
            },
            _ => {},
        }
        self.compile_expr(e, ctx)?;
        let ghost s1 = self.state();
        self.emit(Ins::Cmpi(R0, 0));
        self.emit(Ins::JzL(false_lbl.clone()));
        assert(self.state().code =~= emit_all(s1, seq![InsView::Cmpi(R0, 0), InsView::JzL(false_lbl@)]).code);
        Ok(())
    }

    /// Emit a block in a new scope, dropping its locals afterwards.
    fn compile_block(&mut self, body: &Vec<Stmt>, ctx: &mut Ctx) -> (r: Result<()>)
        requires
            old(ctx).scopes@.len() >= 1,
        ensures
            final(self).known() == old(self).known(),
            match gen_block(stmts_view(body@), old(ctx)@, old(self).state(), old(self).known()) {
                Some((c, st)) => r is Ok && final(ctx)@ == c && final(self).state() == st
                    && final(ctx).scopes@.len() == old(ctx).scopes@.len(),
                None => r matches Err(CompileError::Codegen(_)),
            },
        decreases body@, 2int,
    {
        assert(stmts_view(body@).len() == body@.len()) by {
            lemma_stmts_view_index(body@);
        }
        ctx.push_scope();
        self.compile_stmts(body, ctx)?;
        let bytes = ctx.pop_scope();
        if bytes > 0 {
            self.emit(Ins::Addi(SP, bytes));
        }
        Ok(())
    }

    /// Emit a list of statements in the current scope.
    fn compile_stmts(&mut self, ss: &Vec<Stmt>, ctx: &mut Ctx) -> (r: Result<()>)
        requires
            old(ctx).scopes@.len() >= 1,
        ensures
            final(self).known() == old(self).known(),
            match gen_stmts(stmts_view(ss@), ss@.len(), old(ctx)@, old(self).state(), old(self).known()) {
                Some((c, st)) => r is Ok && final(ctx)@ == c && final(self).state() == st
                    && final(ctx).scopes@.len() == old(ctx).scopes@.len(),
                None => r matches Err(CompileError::Codegen(_)),
            },
        decreases ss@, 1int,
    {
        proof {
            lemma_stmts_view_index(ss@);
        }
        let ghost sv = stmts_view(ss@);
        let mut k: usize = 0;
        while k < ss.len()
            invariant
                sv == stmts_view(ss@),
                sv.len() == ss@.len(),
                forall|j: int| 0 <= j < ss@.len() ==> #[trigger] sv[j] == ss@[j]@,
                k <= ss@.len(),
                ctx.scopes@.len() == old(ctx).scopes@.len(),
                old(ctx).scopes@.len() >= 1,
                self.known() == old(self).known(),
                gen_stmts(sv, k as nat, old(ctx)@, old(self).state(), old(self).known()) == Some((ctx@, self.state())),
            decreases ss@.len() - k,
        {
            match self.compile_stmt(&ss[k], ctx) {
                Ok(()) => {},
                Err(e) => {
                    proof {
                        lemma_gen_stmts_fails(sv, (k + 1) as nat, ss@.len(), old(ctx)@, old(self).state(), old(self).known());
                    }
                    return Err(e);
                },
            }
            k += 1;
        }
        Ok(())
    }

    fn compile_if(&mut self, s: &Stmt, cond: &Expr, then_body: &Vec<Stmt>, else_body: &Vec<Stmt>, ctx: &mut Ctx) -> (r: Result<()>)
        requires
            old(ctx).scopes@.len() >= 1,
            *s == (Stmt::If { cond: *cond, then_body: *then_body, else_body: *else_body }),
        ensures
            final(self).known() == old(self).known(),
            match gen_stmt(s@, old(ctx)@, old(self).state(), old(self).known()) {
                Some((c, st)) => r is Ok && final(ctx)@ == c && final(self).state() == st
                    && final(ctx).scopes@.len() == old(ctx).scopes@.len(),
                None => r matches Err(CompileError::Codegen(_)),
            },
        decreases *s, 1int,
    {
        proof {
            lemma_stmts_view_index(else_body@);
        }
        let el = match self.new_label() {
            Some(l) => l,
            None => return Err(codegen_error("too many labels")),
        };
        let en = match self.new_label() {
            Some(l) => l,
            None => return Err(codegen_error("too many labels")),
        };
        self.compile_cond(cond, &el, ctx)?;
        self.compile_block(then_body, ctx)?;
        if else_body.len() > 0 {
            self.emit(Ins::JmpL(en.clone()));
        }
        self.emit(Ins::Label(el));
        if else_body.len() > 0 {
            self.compile_block(else_body, ctx)?;
            self.emit(Ins::Label(en));
        }
        Ok(())
    }

    /// Emit a function: its label, prologue, spilled register arguments,
    /// body and epilogue.
    fn compile_fn(&mut self, f: &Function) -> (r: Result<()>)
        ensures
            final(self).known() == old(self).known(),
            match gen_fn(f@, old(self).state(), old(self).known()) {
                Some(st) => r is Ok && final(self).state() == st,
                None => r matches Err(CompileError::Codegen(_)),
            },
    {
        self.emit3(Ins::Label(f.name.clone()), Ins::Push(R13), Ins::Mov(R13, SP));
        let ghost s1 = self.state();
        let ghost pv = params_view(f.params@);
        let mut ctx = Ctx::new();
        let n: usize = if f.params.len() < 4 { f.params.len() } else { 4 };
        let mut i: usize = 0;
        while i < n
            invariant
                pv == params_view(f.params@),
                s1 == emit_all(old(self).state(), seq![InsView::Label(f.name@), InsView::Push(R13), InsView::Mov(R13, SP)]),
                n == (if f.params@.len() < 4 { f.params@.len() } else { 4 }),
                n <= 4,
                n <= f.params@.len(),
                i <= n,
                ctx.scopes@.len() == 1,
                self.known() == old(self).known(),
                gen_spill(pv, i as nat, entry_ctx(), s1) == Some((ctx@, self.state())),
            decreases n - i,
        {
            self.emit(Ins::Push(i as u8));
            assert(pv[i as int].0 == f.params@[i as int].name@);
            if !ctx.alloc_local(&f.params[i].name) {
                proof {
                    assert(gen_spill(pv, (i + 1) as nat, entry_ctx(), s1) is None);
                    lemma_gen_spill_fails(pv, (i + 1) as nat, n as nat, entry_ctx(), s1);
                    assert(f@.params == pv);
                }
                return Err(codegen_error("too many locals"));
            }
            i += 1;
        }
        if f.params.len() > 4 {
            return Err(codegen_error("functions with >4 parameters not supported"));
        }
        assert(stmts_view(f.body@).len() == f.body@.len()) by {
            lemma_stmts_view_index(f.body@);
        }
        self.compile_stmts(&f.body, &mut ctx)?;
        self.emit3(Ins::Mov(SP, R13), Ins::Pop(R13), Ins::Ret);
        Ok(())
    }

    /// Remember the names of a program's functions.
    fn register_names(&mut self, prog: &Program)
        ensures
            final(self).known() == old(self).known().union(fn_names(prog@)),
            final(self).state() == old(self).state(),
    {
        let ghost fv = functions_view(prog.functions@);
        let mut i: usize = 0;
        assert(fn_names(fv.take(0)) =~= Set::<Seq<char>>::empty());
        assert(self.known() =~= old(self).known().union(fn_names(fv.take(0))));
        while i < prog.functions.len()
            invariant
                fv == functions_view(prog.functions@),
                i <= prog.functions@.len(),
                self.state() == old(self).state(),
                self.known() == old(self).known().union(fn_names(fv.take(i as int))),
            decreases prog.functions@.len() - i,
        {
            let name = &prog.functions[i].name;
            let ghost old_names = self.known_fns@;
            let ghost before = self.known();
            let known = self.is_known(name.as_str());
            if !known {
                self.known_fns.push(name.clone());
            }
            proof {
                lemma_fn_names_push(fv, i as nat);
                assert(fv[i as int].name == name@);
                if !known {
                    lemma_names_push(old_names, name);
                }
                assert(self.known() =~= old(self).known().union(fn_names(fv.take(i + 1))));
            }
            i += 1;
        }
        assert(fv.take(i as int) =~= fv);
    }

    /// Emit every function of a program.
    fn compile_fns(&mut self, prog: &Program) -> (r: Result<()>)
        ensures
            final(self).known() == old(self).known(),
            match gen_fns(prog@, prog@.len(), old(self).state(), old(self).known()) {
                Some(st) => r is Ok && final(self).state() == st,
                None => r matches Err(CompileError::Codegen(_)),
            },
    {
        let ghost fv = functions_view(prog.functions@);
        let mut k: usize = 0;
        while k < prog.functions.len()
            invariant
                fv == functions_view(prog.functions@),
                k <= prog.functions@.len(),
                self.known() == old(self).known(),
                gen_fns(fv, k as nat, old(self).state(), old(self).known()) == Some(self.state()),
            decreases prog.functions@.len() - k,
        {
            match self.compile_fn(&prog.functions[k]) {
                Ok(()) => {},
                Err(e) => {
                    proof {
                        lemma_gen_fns_fails(fv, (k + 1) as nat, fv.len(), old(self).state(), old(self).known());
                    }
                    return Err(e);
                },
            }
            k += 1;
        }
        Ok(())
    }

    /// Compile a program: remember its function names, emit the entry stub
    /// (`call main; hlt`) and every function, and link the code.
    pub fn compile(&mut self, prog: &Program) -> (r: Result<Vec<u8>>)
        ensures
            final(self).known() == old(self).known().union(fn_names(prog@)),
            match compile_spec(old(self).state().code, old(self).state().counter, old(self).known(), prog@) {
                Some((b, n)) => r is Ok && r->Ok_0@ == b && final(self).state() == (GenState { code: Seq::empty(), counter: n }),
                None => r matches Err(CompileError::Codegen(_)),
            },
    {
        self.register_names(prog);
        self.emit(Ins::CallL("main".to_owned()));
        self.emit(Ins::Hlt);
        assert(self.state().code =~= old(self).state().code + seq![InsView::CallL("main"@), InsView::Hlt]);
        self.compile_fns(prog)?;
        let mut code: Vec<Ins> = Vec::new();
        std::mem::swap(&mut code, &mut self.code);
        assert(self.state().code =~= Seq::<InsView>::empty());
        link_code(code)
    }

    /// Emit one statement.
    #[verifier::rlimit(60)]
    fn compile_stmt(&mut self, s: &Stmt, ctx: &mut Ctx) -> (r: Result<()>)
        requires
            old(ctx).scopes@.len() >= 1,
        ensures
            final(self).known() == old(self).known(),
            match gen_stmt(s@, old(ctx)@, old(self).state(), old(self).known()) {
                Some((c, st)) => r is Ok && final(ctx)@ == c && final(self).state() == st
                    && final(ctx).scopes@.len() == old(ctx).scopes@.len(),
                None => r matches Err(CompileError::Codegen(_)),
            },
        decreases *s, 2int,
    {
        match s {
            Stmt::Let { name, init, .. } => {
                match init {
                    Some(e) => self.compile_expr(e, ctx)?,
                    None => self.emit(Ins::Ldi(R0, 0)),
                }
                if !ctx.alloc_local(name) {
                    return Err(codegen_error("too many locals"));
                }
                self.emit(Ins::Push(R0));
            },
            Stmt::Expr(e) => {
                self.compile_expr(e, ctx)?;
            },
            Stmt::If { cond, then_body, else_body } => {
                return self.compile_if(s, cond, then_body, else_body, ctx);
            },
            Stmt::While { cond, body } => {
                let lp = match self.new_label() {
                    Some(l) => l,
                    None => return Err(codegen_error("too many labels")),
                };
                let en = match self.new_label() {
                    Some(l) => l,
                    None => return Err(codegen_error("too many labels")),
                };
                self.emit(Ins::Label(lp.clone()));
                self.compile_cond(cond, &en, ctx)?;
                self.compile_block(body, ctx)?;
                let ghost s4 = self.state();
                self.emit(Ins::JmpL(lp));
                self.emit(Ins::Label(en));
                assert(self.state().code =~= emit_all(s4, seq![InsView::JmpL(lp@), InsView::Label(en@)]).code);
            },
            Stmt::Loop { body } => {
                let lp = match self.new_label() {
                    Some(l) => l,
                    None => return Err(codegen_error("too many labels")),
                };
                let en = match self.new_label() {
                    Some(l) => l,
                    None => return Err(codegen_error("too many labels")),
                };
                self.emit(Ins::Label(lp.clone()));
                self.compile_block(body, ctx)?;
                let ghost s3 = self.state();
                self.emit(Ins::JmpL(lp));
                self.emit(Ins::Label(en));
                assert(self.state().code =~= emit_all(s3, seq![InsView::JmpL(lp@), InsView::Label(en@)]).code);
            },
            Stmt::Return(v) => {
                match v {
                    Some(e) => self.compile_expr(e, ctx)?,
                    None => {},
                }
                self.emit3(Ins::Mov(SP, R13), Ins::Pop(R13), Ins::Ret);
            },
        }
        Ok(())
    }
}

/// Once a prefix of the statements fails to compile, so do all of them.
proof fn lemma_gen_stmts_fails(ss: Seq<StmtView>, k: nat, n: nat, c: CtxView, st: GenState, fns: Set<Seq<char>>)
    requires
        k <= n <= ss.len(),
        gen_stmts(ss, k, c, st, fns) is None,
    ensures
        gen_stmts(ss, n, c, st, fns) is None,
    decreases n - k,
{
    if k < n {
        lemma_gen_stmts_fails(ss, k + 1, n, c, st, fns);
    }
}

/// Once a prefix of the functions fails to compile, so do all of them.
proof fn lemma_gen_fns_fails(fs: Seq<FunctionView>, k: nat, n: nat, st: GenState, fns: Set<Seq<char>>)
    requires
        k <= n <= fs.len(),
        gen_fns(fs, k, st, fns) is None,
    ensures
        gen_fns(fs, n, st, fns) is None,
    decreases n - k,
{
    if k < n {
        lemma_gen_fns_fails(fs, k + 1, n, st, fns);
    }
}

proof fn lemma_gen_spill_fails(ps: Seq<(Seq<char>, Type)>, k: nat, n: nat, c: CtxView, st: GenState)
    requires
        k <= n,
        gen_spill(ps, k, c, st) is None,
    ensures
        gen_spill(ps, n, c, st) is None,
    decreases n - k,
{
    if k < n {
        lemma_gen_spill_fails(ps, k + 1, n, c, st);
    }
}

proof fn lemma_fn_names_push(fs: Seq<FunctionView>, i: nat)
    requires
        i < fs.len(),
    ensures
        fn_names(fs.take(i as int + 1)) == fn_names(fs.take(i as int)).insert(fs[i as int].name),
{
    let a = fs.take(i as int).map_values(|f: FunctionView| f.name);
    assert(fs.take(i as int + 1).map_values(|f: FunctionView| f.name) =~= a.push(fs[i as int].name));
    a.lemma_push_to_set_commute(fs[i as int].name);
}

proof fn lemma_names_push(v: Seq<String>, s: &String)
    ensures
        names_view(v.push(*s)).to_set() == names_view(v).to_set().insert(s@),
{
    assert(names_view(v.push(*s)) =~= names_view(v).push(s@));
    names_view(v).lemma_push_to_set_commute(s@);
}

} // verus!
