//! Assembler tests: source text through the lexer, the parser and code
//! generation to a binary image.

use custom_pc::assembler::codegen::assemble;
use custom_pc::assembler::lexer::lex;
use custom_pc::assembler::parser::Parser;

fn assemble_text(src: &str) -> Vec<u8> {
    let items = Parser::new(lex(src).unwrap()).parse().unwrap();
    assemble(&items).unwrap().image
}

fn error_line(src: &str) -> usize {
    let items = Parser::new(lex(src).unwrap()).parse().unwrap();
    match assemble(&items) {
        Ok(_) => panic!("expected an assembly error"),
        Err(e) => e.line,
    }
}

#[test]
fn encodes_ldi_hlt() {
    let img = assemble_text("ldi r0, 0x1234\nhlt");
    assert_eq!(img, vec![0x03, 0x00, 0x34, 0x12, 0x01]);
}

#[test]
fn resolves_forward_label() {
    let img = assemble_text("jmp end\nnop\nend: hlt");
    assert_eq!(&img[0..3], &[0x30, 0x04, 0x00]);
    assert_eq!(img[3], 0x00);
    assert_eq!(img[4], 0x01);
}

#[test]
fn memory_ops_encode_registers() {
    let img = assemble_text("ld r1, [r2]\nst [r3], r4");
    assert_eq!(img, vec![0x04, 0x12, 0x05, 0x34]);
}

#[test]
fn codegen_data_directives() {
    let img = assemble_text(".byte 1, 2\n.word 0xBEEF\n.string \"AB\"");
    assert_eq!(img, vec![1, 2, 0xEF, 0xBE, b'A', b'B']);
}

#[test]
fn org_pads_forward() {
    let img = assemble_text("nop\n.org 0x04\nhlt");
    assert_eq!(img, vec![0x00, 0, 0, 0, 0x01]);
}

#[test]
fn nop_hlt() {
    let bytes = assemble_text("nop\nhlt");
    assert_eq!(bytes, &[0x00, 0x01]);
}

#[test]
fn ldi_and_hlt() {
    let bytes = assemble_text("ldi r0, 0x1234\nhlt");
    assert_eq!(bytes, &[0x03, 0x00, 0x34, 0x12, 0x01]);
}

#[test]
fn forward_label() {
    let bytes = assemble_text("jmp end\nnop\nend: hlt");
    assert_eq!(&bytes[0..3], &[0x30, 0x04, 0x00]);
    assert_eq!(bytes[3], 0x00);
    assert_eq!(bytes[4], 0x01);
}

#[test]
fn assembler_tests_data_directives() {
    let bytes = assemble_text(".byte 1, 2\n.word 0xBEEF\n.string \"AB\"");
    assert_eq!(bytes, &[1, 2, 0xEF, 0xBE, b'A', b'B']);
}

#[test]
fn org_pads_with_zeros() {
    let bytes = assemble_text("nop\n.org 0x04\nhlt");
    assert_eq!(bytes, &[0x00, 0x00, 0x00, 0x00, 0x01]);
}

#[test]
fn equ_constant() {
    let bytes = assemble_text(".equ MAGIC, 0x42\nldi r0, MAGIC\nhlt");
    assert_eq!(bytes, &[0x03, 0x00, 0x42, 0x00, 0x01]);
}

#[test]
fn label_value_is_image_offset() {
    let items = Parser::new(lex("nop\nldi r1, 7\nhere: hlt\n.word here").unwrap()).parse().unwrap();
    let out = assemble(&items).unwrap();
    let here = out.symbols.resolve("here", 0).unwrap();
    assert_eq!(here, 5);
    assert_eq!(out.image[5], 0x01);
    assert_eq!(&out.image[6..8], &[0x05, 0x00]);
}

#[test]
fn symbol_table_lists_in_definition_order() {
    let items = Parser::new(lex("a: nop\n.equ B, 3\nc: hlt").unwrap()).parse().unwrap();
    let out = assemble(&items).unwrap();
    let names: Vec<(String, i64)> = out.symbols.iter().to_vec();
    assert_eq!(names, vec![("a".to_string(), 0), ("B".to_string(), 3), ("c".to_string(), 1)]);
}

#[test]
fn push_pop_call_ret_encode() {
    let img = assemble_text("push r3\npop r4\ncall 0x1234\nret\nin r2, 1\nout r5, 0");
    assert_eq!(
        img,
        vec![0x20, 0x30, 0x21, 0x40, 0x22, 0x34, 0x12, 0x23, 0x40, 0x20, 0x01, 0x00, 0x41, 0x50, 0x00, 0x00]
    );
}

#[test]
fn unknown_mnemonic_is_error_on_its_line() {
    assert_eq!(error_line("nop\nfoo r1"), 2);
}

#[test]
fn wrong_operand_count_is_error() {
    assert_eq!(error_line("nop\nnop\nadd r1"), 3);
}

#[test]
fn undefined_symbol_is_error() {
    assert_eq!(error_line("jmp nowhere"), 1);
}

#[test]
fn duplicate_label_is_error() {
    let items = Parser::new(lex("x: nop\nx: hlt").unwrap()).parse().unwrap();
    assert!(assemble(&items).is_err());
}

#[test]
fn org_backwards_is_error() {
    assert_eq!(error_line("nop\nnop\n.org 0x01"), 3);
}

#[test]
fn word_with_string_is_error() {
    assert_eq!(error_line(".word \"no\""), 1);
}

#[test]
fn lexer_rejects_bad_character() {
    assert!(lex("nop $").is_err());
}
