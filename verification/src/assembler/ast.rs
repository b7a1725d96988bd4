//! Abstract syntax tree nodes produced by the parser.
use vstd::prelude::*;

verus! {

/// A single top-level item in an assembly source file.
#[derive(Debug, Clone)]
pub enum Item {
    /// A label definition: `name:`
    Label(String),
    /// `.equ NAME, value` — symbolic constant.
    Equ { name: String, value: i64, line: usize },
    /// `.org address` — set the current assembly address.
    Org { addr: u32, line: usize },
    /// An assembly instruction.
    Instruction { mnemonic: String, operands: Vec<Operand>, line: usize },
    /// A data directive (`.byte`, `.word`, `.string`, `.float`).
    Data { kind: DataKind, args: Vec<DataArg>, line: usize },
}

/// An instruction operand.
#[derive(Debug, Clone)]
pub enum Operand {
    /// A general-purpose register: `r0`–`r15`.
    Reg(u8),
    /// Memory-indirect register: `[r0]`–`[r15]`.
    Mem(u8),
    /// Numeric immediate value.
    Imm(i64),
    /// Symbolic reference (label or `.equ` constant).
    Symbol(String),
}

/// Selects which data directive produced a [`Item::Data`] node.
#[derive(Debug, Clone, Copy, PartialEq, Eq, Structural)]
pub enum DataKind {
    Byte,
    Word,
    Float,
}

/// One argument to a data directive.
#[derive(Debug, Clone)]
pub enum DataArg {
    Number(i64),
    Symbol(String),
    Str(String),
}

pub enum OperandView {
    Reg(u8),
    Mem(u8),
    Imm(i64),
    Symbol(Seq<char>),
}

pub enum DataArgView {
    Number(i64),
    Symbol(Seq<char>),
    Str(Seq<char>),
}

pub enum ItemView {
    Label(Seq<char>),
    Equ { name: Seq<char>, value: i64, line: int },
    Org { addr: u32, line: int },
    Instruction { mnemonic: Seq<char>, operands: Seq<OperandView>, line: int },
    Data { kind: DataKind, args: Seq<DataArgView>, line: int },
}

impl View for Operand {
    type V = OperandView;

    open spec fn view(&self) -> OperandView {
        match self {
            Operand::Reg(r) => OperandView::Reg(*r),
            Operand::Mem(r) => OperandView::Mem(*r),
            Operand::Imm(n) => OperandView::Imm(*n),
            Operand::Symbol(s) => OperandView::Symbol(s@),
        }
    }
}

impl View for DataArg {
    type V = DataArgView;

    open spec fn view(&self) -> DataArgView {
        match self {
            DataArg::Number(n) => DataArgView::Number(*n),
            DataArg::Symbol(s) => DataArgView::Symbol(s@),
            DataArg::Str(s) => DataArgView::Str(s@),
        }
    }
}

pub open spec fn operands_view(ops: Seq<Operand>) -> Seq<OperandView> {
    ops.map_values(|o: Operand| o@)
}

pub open spec fn args_view(args: Seq<DataArg>) -> Seq<DataArgView> {
    args.map_values(|a: DataArg| a@)
}

impl View for Item {
    type V = ItemView;

    open spec fn view(&self) -> ItemView {
        match self {
            Item::Label(s) => ItemView::Label(s@),
            Item::Equ { name, value, line } => ItemView::Equ { name: name@, value: *value, line: *line as int },
            Item::Org { addr, line } => ItemView::Org { addr: *addr, line: *line as int },
            Item::Instruction { mnemonic, operands, line } => ItemView::Instruction {
                mnemonic: mnemonic@,
                operands: operands_view(operands@),
                line: *line as int,
            },
            Item::Data { kind, args, line } => ItemView::Data {
                kind: *kind,
                args: args_view(args@),
                line: *line as int,
            },
        }
    }
}

pub open spec fn items_view(items: Seq<Item>) -> Seq<ItemView> {
    items.map_values(|i: Item| i@)
}

} // verus!
