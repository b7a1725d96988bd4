//! How the two passes of the assembler fit together: the sizes that pass one
//! counts are the sizes that pass two emits, so every label is bound to the
//! offset in the image at which the item after it is placed, and every
//! instruction the assembler emits is decoded by the CPU as that instruction.
use vstd::prelude::*;
use crate::assembler::ast::{DataArgView, DataKind, ItemView, OperandView};
use crate::assembler::codegen::{
    arg_len, assemble_spec, data_len_spec, emit_item, encode_arg_spec, encode_data_spec,
    encode_instr_spec, imm_of_spec, instr_len_spec, item_end, pad_to, pass_one_from,
    pass_two_from,
};
use crate::assembler::instruction::{lemma_opcode_table, opcode_named, OperandFormat};
use crate::assembler::symbol_table::lookup;
use crate::instruction::{decode_bytes, format_len, instr_of, opcode_format};

verus! {

/// The image after the first `j` items have been emitted (an item that cannot
/// be emitted leaves it as it was).
pub open spec fn image_at(items: Seq<ItemView>, syms: Seq<(Seq<char>, i64)>, j: int) -> Seq<u8>
    decreases j,
{
    if j <= 0 {
        Seq::empty()
    } else {
        let prev = image_at(items, syms, j - 1);
        match emit_item(items[j - 1], syms, prev) {
            Some(img) => img,
            None => prev,
        }
    }
}

/// Pass one's address and symbol table after the first `j` items.
pub open spec fn pass_one_at(items: Seq<ItemView>, j: int) -> (int, Seq<(Seq<char>, i64)>)
    decreases j,
{
    if j <= 0 {
        (0, Seq::empty())
    } else {
        let (a, s) = pass_one_at(items, j - 1);
        let it = items[j - 1];
        let s2 = match it {
            ItemView::Label(name) => s.push((name, a as i64)),
            ItemView::Equ { name, value, .. } => s.push((name, value)),
            _ => s,
        };
        let a2 = match item_end(it, a) {
            Some(e) => e,
            None => a,
        };
        (a2, s2)
    }
}

/// An encodable instruction takes the number of bytes pass one counted for it.
pub proof fn lemma_instr_len_agrees(m: Seq<char>, ops: Seq<OperandView>, syms: Seq<(Seq<char>, i64)>)
    requires
        encode_instr_spec(m, ops, syms) is Some,
    ensures
        instr_len_spec(m, ops) == Some(encode_instr_spec(m, ops, syms).unwrap().len()),
{
}

/// An encodable data directive takes the number of bytes pass one counted for it.
pub proof fn lemma_data_len_agrees(kind: DataKind, args: Seq<DataArgView>, syms: Seq<(Seq<char>, i64)>)
    requires
        encode_data_spec(kind, args, syms) is Some,
    ensures
        encode_data_spec(kind, args, syms).unwrap().len() == data_len_spec(kind, args),
    decreases args.len(),
{
    if args.len() > 0 {
        lemma_data_len_agrees(kind, args.drop_last(), syms);
        let a = args.last();
        assert(encode_arg_spec(kind, a, syms).unwrap().len() == arg_len(kind, a));
    }
}

/// Pass two, once it succeeds as a whole, goes through `image_at` item by item.
proof fn lemma_pass_two_steps(items: Seq<ItemView>, syms: Seq<(Seq<char>, i64)>, j: int)
    requires
        0 <= j <= items.len(),
        pass_two_from(items, syms, 0, Seq::empty()) is Ok,
    ensures
        pass_two_from(items, syms, j, image_at(items, syms, j)) == pass_two_from(items, syms, 0, Seq::empty()),
        j < items.len() ==> emit_item(items[j], syms, image_at(items, syms, j)) is Some,
    decreases j,
{
    if j > 0 {
        lemma_pass_two_steps(items, syms, j - 1);
    }
}

/// Pass one, once it succeeds as a whole, goes through `pass_one_at` item by item.
proof fn lemma_pass_one_steps(items: Seq<ItemView>, fs: Seq<(Seq<char>, i64)>, j: int)
    requires
        0 <= j <= items.len(),
        pass_one_from(items, 0, 0, Seq::empty()) == Ok::<Seq<(Seq<char>, i64)>, int>(fs),
    ensures
        pass_one_from(items, j, pass_one_at(items, j).0, pass_one_at(items, j).1) == Ok::<Seq<(Seq<char>, i64)>, int>(fs),
        j < items.len() ==> item_end(items[j], pass_one_at(items, j).0) is Some,
        j < items.len() ==> (items[j] matches ItemView::Label(name) ==> lookup(pass_one_at(items, j).1, name) is None),
        j < items.len() ==> (items[j] matches ItemView::Equ { name, .. } ==> lookup(pass_one_at(items, j).1, name) is None),
    decreases j,
{
    if j > 0 {
        lemma_pass_one_steps(items, fs, j - 1);
    }
}

/// A name bound during pass one keeps its value in the final table.
proof fn lemma_binding_kept(items: Seq<ItemView>, fs: Seq<(Seq<char>, i64)>, j: int, name: Seq<char>)
    requires
        0 <= j <= items.len(),
        pass_one_from(items, 0, 0, Seq::empty()) == Ok::<Seq<(Seq<char>, i64)>, int>(fs),
        lookup(pass_one_at(items, j).1, name) is Some,
    ensures
        lookup(fs, name) == lookup(pass_one_at(items, j).1, name),
    decreases items.len() - j,
{
    lemma_pass_one_steps(items, fs, j);
    if j == items.len() {
        assert(pass_one_from(items, j, pass_one_at(items, j).0, pass_one_at(items, j).1) == Ok::<
            Seq<(Seq<char>, i64)>,
            int,
        >(pass_one_at(items, j).1));
    } else {
        let s = pass_one_at(items, j).1;
        let s2 = pass_one_at(items, j + 1).1;
        match items[j] {
            ItemView::Label(nm) => {
                assert(s2.drop_last() =~= s);
            },
            ItemView::Equ { name: nm, .. } => {
                assert(s2.drop_last() =~= s);
            },
            _ => {},
        }
        assert(lookup(s2, name) == lookup(s, name));
        lemma_binding_kept(items, fs, j + 1, name);
    }
}

/// Both passes agree on where each item starts: the image emitted before item
/// `j` is as long as pass one's address at item `j`.
proof fn lemma_offsets_agree(items: Seq<ItemView>, fs: Seq<(Seq<char>, i64)>, j: int)
    requires
        0 <= j <= items.len(),
        pass_one_from(items, 0, 0, Seq::empty()) == Ok::<Seq<(Seq<char>, i64)>, int>(fs),
        pass_two_from(items, fs, 0, Seq::empty()) is Ok,
    ensures
        image_at(items, fs, j).len() == pass_one_at(items, j).0,
    decreases j,
{
    if j > 0 {
        lemma_offsets_agree(items, fs, j - 1);
        lemma_pass_one_steps(items, fs, j - 1);
        lemma_pass_two_steps(items, fs, j - 1);
        let prev = image_at(items, fs, j - 1);
        match items[j - 1] {
            ItemView::Instruction { mnemonic, operands, .. } => {
                lemma_instr_len_agrees(mnemonic, operands, fs);
            },
            ItemView::Data { kind, args, .. } => {
                lemma_data_len_agrees(kind, args, fs);
            },
            ItemView::Org { addr, .. } => {
                assert(pad_to(prev, addr as int).len() == addr);
            },
            _ => {},
        }
    }
}

/// Emitting more items only appends to the image.
proof fn lemma_image_grows(items: Seq<ItemView>, syms: Seq<(Seq<char>, i64)>, j: int, k: int)
    requires
        0 <= j <= k,
    ensures
        image_at(items, syms, j).len() <= image_at(items, syms, k).len(),
        image_at(items, syms, k).subrange(0, image_at(items, syms, j).len() as int) == image_at(items, syms, j),
    decreases k - j,
{
    if j < k {
        lemma_image_grows(items, syms, j, k - 1);
        let a = image_at(items, syms, j);
        let p = image_at(items, syms, k - 1);
        let q = image_at(items, syms, k);
        assert(q.len() >= p.len() && q.subrange(0, p.len() as int) =~= p);
        assert(q.subrange(0, a.len() as int) =~= p.subrange(0, a.len() as int));
    } else {
        let a = image_at(items, syms, j);
        assert(a.subrange(0, a.len() as int) =~= a);
    }
}

/// The result of an assembly, for a program that assembles.
pub open spec fn assembled_image(items: Seq<ItemView>) -> Seq<u8> {
    assemble_spec(items)->Ok_0.0
}

pub open spec fn assembled_symbols(items: Seq<ItemView>) -> Seq<(Seq<char>, i64)> {
    assemble_spec(items)->Ok_0.1
}

/// Every label is bound to the offset in the image at which the bytes of the
/// items after it begin: the bytes emitted before the label are exactly the
/// first `value` bytes of the image.
pub proof fn lemma_label_is_offset(items: Seq<ItemView>, j: int)
    requires
        assemble_spec(items) is Ok,
        0 <= j < items.len(),
        items[j] is Label,
    ensures
        lookup(assembled_symbols(items), items[j]->Label_0) == Some(
            image_at(items, assembled_symbols(items), j).len() as i64,
        ),
        image_at(items, assembled_symbols(items), j).len() <= assembled_image(items).len(),
        assembled_image(items).subrange(0, image_at(items, assembled_symbols(items), j).len() as int)
            == image_at(items, assembled_symbols(items), j),
{
    let fs = assembled_symbols(items);
    let name = items[j]->Label_0;
    lemma_pass_one_steps(items, fs, j);
    lemma_offsets_agree(items, fs, j);
    let s = pass_one_at(items, j).1;
    let a = pass_one_at(items, j).0;
    assert(pass_one_at(items, j + 1).1 == s.push((name, a as i64)));
    assert(s.push((name, a as i64)).drop_last() =~= s);
    assert(lookup(pass_one_at(items, j + 1).1, name) == Some(a as i64));
    lemma_binding_kept(items, fs, j + 1, name);
    lemma_final_image(items);
    lemma_image_grows(items, fs, j, items.len() as int);
}

/// The assembled image is what emitting every item gives.
proof fn lemma_final_image(items: Seq<ItemView>)
    requires
        assemble_spec(items) is Ok,
    ensures
        assembled_image(items) == image_at(items, assembled_symbols(items), items.len() as int),
{
    let fs = assembled_symbols(items);
    lemma_pass_two_steps(items, fs, items.len() as int);
}

/// The opcode byte and immediate that decoding recovers from `instr_of`.
proof fn lemma_instr_of_fields(op: u8, rb: u8, imm: u16)
    requires
        opcode_format(op) is Some,
    ensures
        instr_of(op, rb, imm).opcode() == op,
        (opcode_format(op) == Some(OperandFormat::RegImm) || opcode_format(op) == Some(
            OperandFormat::Imm,
        )) ==> instr_of(op, rb, imm).imm() == imm,
{
}

/// Decoding looks only at the bytes of the instruction it finds.
proof fn lemma_decode_prefix(b: Seq<u8>, rest: Seq<u8>)
    requires
        decode_bytes(b) matches Some((_, n)) && n == b.len(),
    ensures
        decode_bytes(b + rest) == decode_bytes(b),
{
    assert((b + rest)[0] == b[0]);
    if b.len() > 1 {
        assert((b + rest)[1] == b[1]);
    }
    if b.len() > 2 {
        assert((b + rest)[2] == b[2]);
    }
    if b.len() > 3 {
        assert((b + rest)[3] == b[3]);
    }
}

/// The bytes the assembler emits for an instruction decode to an instruction
/// with the mnemonic's opcode, the operand's immediate, and the encoding's
/// length.
pub proof fn lemma_encoded_instr_decodes(m: Seq<char>, ops: Seq<OperandView>, syms: Seq<(Seq<char>, i64)>)
    requires
        encode_instr_spec(m, ops, syms) is Some,
    ensures
        ({
            let b = encode_instr_spec(m, ops, syms).unwrap();
            let op = opcode_named(m).unwrap();
            &&& decode_bytes(b) matches Some((ins, n))
            &&& n == b.len()
            &&& ins.opcode() == op.byte()
            &&& op.format_spec() == OperandFormat::RegImm ==> ins.imm() == imm_of_spec(ops[1], syms).unwrap()
            &&& op.format_spec() == OperandFormat::Imm ==> ins.imm() == imm_of_spec(ops[0], syms).unwrap()
        }),
{
    let op = opcode_named(m).unwrap();
    lemma_opcode_table(op);
    let b = encode_instr_spec(m, ops, syms).unwrap();
    let b0 = op.byte();
    match op.format_spec() {
        OperandFormat::NoOperands => {
            lemma_instr_of_fields(b0, 0, 0);
        },
        OperandFormat::Reg | OperandFormat::RegReg => {
            lemma_instr_of_fields(b0, b[1], 0);
        },
        OperandFormat::RegImm => {
            let imm = imm_of_spec(ops[1], syms).unwrap();
            assert(((imm % 256) as u8 + 256 * ((imm / 256) as u8)) as u16 == imm);
            lemma_instr_of_fields(b0, b[1], imm);
        },
        OperandFormat::Imm => {
            let imm = imm_of_spec(ops[0], syms).unwrap();
            assert(((imm % 256) as u8 + 256 * ((imm / 256) as u8)) as u16 == imm);
            lemma_instr_of_fields(b0, 0, imm);
        },
    }
}

/// What the assembler places at an instruction's offset in the image is what
/// the CPU decodes there: the instruction's opcode, its immediate, and a
/// length that brings decoding to the offset of the next item.
pub proof fn lemma_image_decodes(items: Seq<ItemView>, j: int)
    requires
        assemble_spec(items) is Ok,
        0 <= j < items.len(),
        items[j] is Instruction,
    ensures
        ({
            let syms = assembled_symbols(items);
            let image = assembled_image(items);
            let off = image_at(items, syms, j).len() as int;
            let m = items[j]->Instruction_mnemonic;
            let ops = items[j]->Instruction_operands;
            &&& decode_bytes(image.subrange(off, image.len() as int)) matches Some((ins, n))
            &&& ins.opcode() == opcode_named(m).unwrap().byte()
            &&& off + n == image_at(items, syms, j + 1).len()
            &&& opcode_named(m).unwrap().format_spec() == OperandFormat::RegImm ==> ins.imm()
                == imm_of_spec(ops[1], syms).unwrap()
            &&& opcode_named(m).unwrap().format_spec() == OperandFormat::Imm ==> ins.imm()
                == imm_of_spec(ops[0], syms).unwrap()
        }),
{
    let syms = assembled_symbols(items);
    let image = assembled_image(items);
    let m = items[j]->Instruction_mnemonic;
    let ops = items[j]->Instruction_operands;
    lemma_pass_two_steps(items, syms, j);
    let before = image_at(items, syms, j);
    let b = encode_instr_spec(m, ops, syms).unwrap();
    let after = image_at(items, syms, j + 1);
    assert(after == before + b);
    lemma_final_image(items);
    lemma_image_grows(items, syms, j + 1, items.len() as int);
    let off = before.len() as int;
    let rest = image.subrange(off + b.len(), image.len() as int);
    assert(image.subrange(off, image.len() as int) =~= b + rest) by {
        let pre = image.subrange(0, after.len() as int);
        assert(pre == after);
        assert(after.len() == off + b.len());
        assert(off + b.len() <= image.len());
        let s = image.subrange(off, image.len() as int);
        assert(s.len() == (b + rest).len());
        assert forall|k: int| 0 <= k < s.len() implies #[trigger] s[k] == (b + rest)[k] by {
            if k < b.len() {
                assert(pre[off + k] == image[off + k]);
                assert(after[off + k] == b[k]);
            } else {
                assert(rest[k - b.len()] == image[off + k]);
            }
        }
    }
    lemma_encoded_instr_decodes(m, ops, syms);
    lemma_decode_prefix(b, rest);
}

/// The register byte of a decoded instruction: the whole byte for a
/// two-register instruction, its high nibble for a one-register one.
proof fn lemma_instr_of_regs(op: u8, rb: u8, imm: u16)
    requires
        opcode_format(op) is Some,
    ensures
        opcode_format(op) == Some(OperandFormat::RegReg) ==> instr_of(op, rb, imm).reg_byte() == rb,
        (opcode_format(op) == Some(OperandFormat::Reg) || opcode_format(op) == Some(OperandFormat::RegImm))
            ==> instr_of(op, rb, imm).reg_byte() == (rb / 16) * 16,
{
}

/// The registers written in an instruction's operands are the registers of
/// the instruction its bytes decode to, in the order the operands name
/// them: `op ra, rb`, `ld ra, [rb]` and `st [ra], rb` decode with register
/// byte `ra * 16 + rb` (`ra` the first register, `rb` the second), and a
/// one-register instruction (`op ra` or `op ra, imm`) with `ra * 16`.
pub proof fn lemma_encoded_registers(m: Seq<char>, ops: Seq<OperandView>, syms: Seq<(Seq<char>, i64)>, ra: u8, rb: u8)
    requires
        encode_instr_spec(m, ops, syms) is Some,
        ra < 16,
        rb < 16,
    ensures
        ({
            let ins = decode_bytes(encode_instr_spec(m, ops, syms).unwrap()).unwrap().0;
            &&& ops == seq![OperandView::Reg(ra), OperandView::Reg(rb)] ==> ins.reg_byte() == ra * 16 + rb
            &&& ops == seq![OperandView::Reg(ra), OperandView::Mem(rb)] ==> ins.reg_byte() == ra * 16 + rb
            &&& ops == seq![OperandView::Mem(ra), OperandView::Reg(rb)] ==> ins.reg_byte() == ra * 16 + rb
            &&& (ops.len() >= 1 && ops[0] == OperandView::Reg(ra) && (ops.len() == 1 || ops[1] is Imm || ops[1] is Symbol))
                ==> ins.reg_byte() == ra * 16
        }),
{
    lemma_encoded_instr_decodes(m, ops, syms);
    let op = opcode_named(m).unwrap();
    lemma_opcode_table(op);
    let b = encode_instr_spec(m, ops, syms).unwrap();
    let b0 = op.byte();
    match op.format_spec() {
        OperandFormat::NoOperands => {},
        OperandFormat::Reg | OperandFormat::RegReg => {
            lemma_instr_of_regs(b0, b[1], 0);
        },
        OperandFormat::RegImm => {
            lemma_instr_of_regs(b0, b[1], (b[2] + 256 * b[3]) as u16);
        },
        OperandFormat::Imm => {},
    }
}

} // verus!
