//! Tests of the compiler: lexer, parser and code generation.

use custom_pc::rsc::ast::{BinOp, Expr, Stmt, Type};
use custom_pc::rsc::codegen::{link_code, Codegen, Ins};
use custom_pc::rsc::error::CompileError;
use custom_pc::rsc::lexer::{Lexer, Token};
use custom_pc::rsc::parser::Parser;

fn compile(src: &str) -> Result<Vec<u8>, CompileError> {
    let tokens = Lexer::new(src).tokenize()?;
    let program = Parser::new(tokens).parse_program()?;
    Codegen::new().compile(&program)
}

#[test]
fn lexes_tokens_with_lines() {
    let toks = Lexer::new("fn main() -> u32 {\n  let x = 0x1_0 + 2_5; // note\n  x != 3 && !y\n}").tokenize().unwrap();
    let kinds: Vec<String> = toks.iter().map(|(t, _)| format!("{:?}", t)).collect();
    assert_eq!(
        kinds,
        vec![
            "Fn", "Ident(\"main\")", "LParen", "RParen", "Arrow", "U32", "LBrace", "Let", "Ident(\"x\")", "Eq",
            "IntLit(16)", "Plus", "IntLit(25)", "Semi", "Ident(\"x\")", "BangEq", "IntLit(3)", "AmpAmp", "Bang",
            "Ident(\"y\")", "RBrace", "Eof",
        ]
    );
    let lines: Vec<usize> = toks.iter().map(|(_, l)| *l).collect();
    assert_eq!(lines, vec![1, 1, 1, 1, 1, 1, 1, 2, 2, 2, 2, 2, 2, 2, 3, 3, 3, 3, 3, 3, 4, 4]);
}

#[test]
fn lex_errors_carry_the_line() {
    match Lexer::new("fn a() {}\n  $").tokenize() {
        Err(CompileError::Lex { line, .. }) => assert_eq!(line, 2),
        _ => panic!("expected a lex error"),
    }
    match Lexer::new("let x = 4294967296;").tokenize() {
        Err(CompileError::Lex { line, .. }) => assert_eq!(line, 1),
        _ => panic!("expected a lex error"),
    }
    match Lexer::new("0xg").tokenize() {
        Err(CompileError::Lex { line, .. }) => assert_eq!(line, 1),
        _ => panic!("expected a lex error"),
    }
    assert!(matches!(Lexer::new("4294967295").tokenize().unwrap()[0].0, Token::IntLit(4294967295)));
}

#[test]
fn parses_precedence() {
    let tokens = Lexer::new("fn f(a: u32, mut b: bool) { a = 1 + 2 * 3 < 4 || b; }").tokenize().unwrap();
    let program = Parser::new(tokens).parse_program().unwrap();
    assert_eq!(program.functions.len(), 1);
    let f = &program.functions[0];
    assert_eq!(f.name, "f");
    assert_eq!(f.params.len(), 2);
    assert_eq!(f.params[1].ty, Type::Bool);
    match &f.body[0] {
        Stmt::Expr(Expr::Assign(name, rhs)) => {
            assert_eq!(name, "a");
            match &**rhs {
                Expr::BinOp(l, BinOp::Or, _) => match &**l {
                    Expr::BinOp(sum, BinOp::Lt, _) => match &**sum {
                        Expr::BinOp(_, BinOp::Add, prod) => {
                            assert!(matches!(&**prod, Expr::BinOp(_, BinOp::Mul, _)))
                        },
                        _ => panic!("expected an addition"),
                    },
                    _ => panic!("expected a comparison"),
                },
                _ => panic!("expected ||"),
            }
        },
        _ => panic!("expected an assignment"),
    }
}

#[test]
fn parse_errors_carry_the_line() {
    let tokens = Lexer::new("fn main() {\n  let = 3;\n}").tokenize().unwrap();
    match Parser::new(tokens).parse_program() {
        Err(CompileError::Parse { line, .. }) => assert_eq!(line, 2),
        _ => panic!("expected a parse error"),
    }
    let tokens = Lexer::new("fn main() { 1 = 2; }").tokenize().unwrap();
    assert!(matches!(Parser::new(tokens).parse_program(), Err(CompileError::Parse { .. })));
}

#[test]
fn compiles_empty_main() {
    let bytes = compile("fn main() { }").unwrap();
    assert_eq!(
        bytes,
        vec![0x22, 4, 0, 0x01, 0x20, 0xD0, 0x02, 0xDE, 0x02, 0xED, 0x21, 0xD0, 0x23]
    );
}

#[test]
fn compiles_return_of_literal() {
    let bytes = compile("fn main() -> u32 { return 7; }").unwrap();
    let mut expected = vec![0x22, 4, 0, 0x01, 0x20, 0xD0, 0x02, 0xDE];
    expected.extend_from_slice(&[0x03, 0x00, 7, 0]);
    expected.extend_from_slice(&[0x02, 0xED, 0x21, 0xD0, 0x23]);
    expected.extend_from_slice(&[0x02, 0xED, 0x21, 0xD0, 0x23]);
    assert_eq!(bytes, expected);
}

#[test]
fn compiles_calls_and_loops() {
    let src = "fn add(a: u32, b: u32) -> u32 { return a + b; }\n\
               fn main() { let mut i = 0; while i < 3 { i = add(i, 1); serial_write(i); } hlt(); }";
    let bytes = compile(src).unwrap();
    assert_eq!(&bytes[0..4], &[0x22, 0x2E, 0, 0x01]);
}

#[test]
fn codegen_errors() {
    assert!(matches!(compile("fn main() { x = 1; }"), Err(CompileError::Codegen(_))));
    assert!(matches!(compile("fn main() { nope(); }"), Err(CompileError::Codegen(_))));
    assert!(matches!(compile("fn main() { serial_write(1, 2); }"), Err(CompileError::Codegen(_))));
    assert!(matches!(compile("fn f(a: u32, b: u32, c: u32, d: u32, e: u32) { }\nfn main() { }"), Err(CompileError::Codegen(_))));
    assert!(matches!(compile("fn helper() { }"), Err(CompileError::Codegen(_))));
}

#[test]
fn links_labels_to_offsets() {
    let code = vec![
        Ins::JmpL("end".to_string()),
        Ins::Nop,
        Ins::Label("end".to_string()),
        Ins::Hlt,
    ];
    assert_eq!(link_code(code).unwrap(), vec![0x30, 4, 0, 0x00, 0x01]);
    assert!(matches!(link_code(vec![Ins::JzL("missing".to_string())]), Err(CompileError::Codegen(_))));
}

#[test]
fn loop_labels_resolve_to_their_offsets() {
    let bytes = compile("fn main() { while 1 { } }").unwrap();
    assert_eq!(bytes.len(), 27);
    // `jz` to the loop's end (offset 22), `jmp` back to its head (offset 8).
    assert_eq!(&bytes[16..19], &[0x31, 22, 0]);
    assert_eq!(&bytes[19..22], &[0x30, 8, 0]);
    // The end label stands where the epilogue starts.
    assert_eq!(&bytes[22..27], &[0x02, 0xED, 0x21, 0xD0, 0x23]);
}

#[test]
fn not_counts_two_bytes() {
    let code = vec![Ins::Not(3), Ins::JmpL("end".to_string()), Ins::Label("end".to_string()), Ins::Hlt];
    assert_eq!(link_code(code).unwrap(), vec![0x0D, 0x30, 0x30, 5, 0, 0x01]);
}

#[test]
fn compiled_program_runs_on_the_machine() {
    let bytes = compile("fn main() { serial_write(65); hlt(); }").unwrap();
    let mut m = custom_pc::Machine::new();
    m.load_rom(&bytes);
    m.run(Some(1000)).unwrap();
    assert!(m.is_halted());
    assert_eq!(m.bus.take_output(), vec![65]);
}

#[test]
fn compiled_arithmetic_runs_on_the_machine() {
    let bytes = compile("fn main() { serial_write(6 * 7); serial_write(43 / 5); serial_write(43 % 5); hlt(); }").unwrap();
    let mut m = custom_pc::Machine::new();
    m.load_rom(&bytes);
    m.run(Some(10_000)).unwrap();
    assert!(m.is_halted());
    assert_eq!(m.bus.take_output(), vec![42, 8, 3]);
}
