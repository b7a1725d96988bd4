//! Tokeniser for the source language.
use vstd::prelude::*;
use crate::rsc::error::{CompileError, Result};
use crate::text::{alphanumeric, chars_eq, chars_of, is_alphanumeric, is_whitespace, push_char, string_of, whitespace};
use crate::utils::number::{number_value, parse_number};

verus! {

#[derive(Debug)]
pub enum Token {
    Fn,
    Let,
    Mut,
    If,
    Else,
    While,
    Loop,
    Return,
    Break,
    Continue,
    U32,
    I32,
    Bool,
    True,
    False,
    IntLit(u32),
    Ident(String),
    AmpAmp,
    PipePipe,
    EqEq,
    BangEq,
    LtEq,
    GtEq,
    Arrow,
    Plus,
    Minus,
    Star,
    Slash,
    Percent,
    Amp,
    Pipe,
    Caret,
    Bang,
    Eq,
    Lt,
    Gt,
    LParen,
    RParen,
    LBrace,
    RBrace,
    Comma,
    Semi,
    Colon,
    Eof,
}

/// A token with its name as a character sequence.
pub enum TokenView {
    Fn,
    Let,
    Mut,
    If,
    Else,
    While,
    Loop,
    Return,
    Break,
    Continue,
    U32,
    I32,
    Bool,
    True,
    False,
    IntLit(u32),
    Ident(Seq<char>),
    AmpAmp,
    PipePipe,
    EqEq,
    BangEq,
    LtEq,
    GtEq,
    Arrow,
    Plus,
    Minus,
    Star,
    Slash,
    Percent,
    Amp,
    Pipe,
    Caret,
    Bang,
    Eq,
    Lt,
    Gt,
    LParen,
    RParen,
    LBrace,
    RBrace,
    Comma,
    Semi,
    Colon,
    Eof,
}

impl View for Token {
    type V = TokenView;

    open spec fn view(&self) -> TokenView {
        match self {
            Token::Fn => TokenView::Fn,
            Token::Let => TokenView::Let,
            Token::Mut => TokenView::Mut,
            Token::If => TokenView::If,
            Token::Else => TokenView::Else,
            Token::While => TokenView::While,
            Token::Loop => TokenView::Loop,
            Token::Return => TokenView::Return,
            Token::Break => TokenView::Break,
            Token::Continue => TokenView::Continue,
            Token::U32 => TokenView::U32,
            Token::I32 => TokenView::I32,
            Token::Bool => TokenView::Bool,
            Token::True => TokenView::True,
            Token::False => TokenView::False,
            Token::AmpAmp => TokenView::AmpAmp,
            Token::PipePipe => TokenView::PipePipe,
            Token::EqEq => TokenView::EqEq,
            Token::BangEq => TokenView::BangEq,
            Token::LtEq => TokenView::LtEq,
            Token::GtEq => TokenView::GtEq,
            Token::Arrow => TokenView::Arrow,
            Token::Plus => TokenView::Plus,
            Token::Minus => TokenView::Minus,
            Token::Star => TokenView::Star,
            Token::Slash => TokenView::Slash,
            Token::Percent => TokenView::Percent,
            Token::Amp => TokenView::Amp,
            Token::Pipe => TokenView::Pipe,
            Token::Caret => TokenView::Caret,
            Token::Bang => TokenView::Bang,
            Token::Eq => TokenView::Eq,
            Token::Lt => TokenView::Lt,
            Token::Gt => TokenView::Gt,
            Token::LParen => TokenView::LParen,
            Token::RParen => TokenView::RParen,
            Token::LBrace => TokenView::LBrace,
            Token::RBrace => TokenView::RBrace,
            Token::Comma => TokenView::Comma,
            Token::Semi => TokenView::Semi,
            Token::Colon => TokenView::Colon,
            Token::Eof => TokenView::Eof,
            Token::IntLit(v) => TokenView::IntLit(*v),
            Token::Ident(s) => TokenView::Ident(s@),
        }
    }
}

/// A copy of a token.
pub fn clone_token(t: &Token) -> (r: Token)
    ensures
        r@ == t@,
{
    match t {
            Token::Fn => Token::Fn,
            Token::Let => Token::Let,
            Token::Mut => Token::Mut,
            Token::If => Token::If,
            Token::Else => Token::Else,
            Token::While => Token::While,
            Token::Loop => Token::Loop,
            Token::Return => Token::Return,
            Token::Break => Token::Break,
            Token::Continue => Token::Continue,
            Token::U32 => Token::U32,
            Token::I32 => Token::I32,
            Token::Bool => Token::Bool,
            Token::True => Token::True,
            Token::False => Token::False,
            Token::AmpAmp => Token::AmpAmp,
            Token::PipePipe => Token::PipePipe,
            Token::EqEq => Token::EqEq,
            Token::BangEq => Token::BangEq,
            Token::LtEq => Token::LtEq,
            Token::GtEq => Token::GtEq,
            Token::Arrow => Token::Arrow,
            Token::Plus => Token::Plus,
            Token::Minus => Token::Minus,
            Token::Star => Token::Star,
            Token::Slash => Token::Slash,
            Token::Percent => Token::Percent,
            Token::Amp => Token::Amp,
            Token::Pipe => Token::Pipe,
            Token::Caret => Token::Caret,
            Token::Bang => Token::Bang,
            Token::Eq => Token::Eq,
            Token::Lt => Token::Lt,
            Token::Gt => Token::Gt,
            Token::LParen => Token::LParen,
            Token::RParen => Token::RParen,
            Token::LBrace => Token::LBrace,
            Token::RBrace => Token::RBrace,
            Token::Comma => Token::Comma,
            Token::Semi => Token::Semi,
            Token::Colon => Token::Colon,
            Token::Eof => Token::Eof,
            Token::IntLit(v) => Token::IntLit(*v),
            Token::Ident(s) => Token::Ident(s.clone()),
    }
}

/// A token list with each token's line.
pub open spec fn token_lines_view(ts: Seq<(Token, usize)>) -> Seq<(TokenView, int)> {
    ts.map_values(|t: (Token, usize)| (t.0@, t.1 as int))
}

/// The index of the first line feed at or after `i` (or the end).
pub open spec fn line_end(cs: Seq<char>, i: int) -> int
    decreases cs.len() - i,
{
    if i >= cs.len() || i < 0 || cs[i] == '\n' {
        i
    } else {
        line_end(cs, i + 1)
    }
}

/// Where whitespace and `//` comments starting at `i` end, and the line there.
pub open spec fn skip_space(cs: Seq<char>, i: int, line: int) -> (int, int)
    decreases cs.len() - i,
{
    if i < 0 || i >= cs.len() {
        (i, line)
    } else if whitespace(cs[i]) {
        skip_space(cs, i + 1, if cs[i] == '\n' { line + 1 } else { line })
    } else if i + 1 < cs.len() && cs[i] == '/' && cs[i + 1] == '/' {
        proof {
            lemma_line_end(cs, i + 1);
        }
        skip_space(cs, line_end(cs, i), line)
    } else {
        (i, line)
    }
}

/// Characters of a hex literal's digit run.
pub open spec fn hex_run_char(c: char) -> bool {
    ('0' <= c <= '9') || ('a' <= c <= 'f') || ('A' <= c <= 'F') || c == '_'
}

/// Characters of a decimal literal's digit run.
pub open spec fn dec_run_char(c: char) -> bool {
    ('0' <= c <= '9') || c == '_'
}

/// Characters of a word after its first.
pub open spec fn word_char(c: char) -> bool {
    alphanumeric(c) || c == '_'
}

/// The end of the run of characters of kind `kind` (0: hex, 1: decimal,
/// 2: word) starting at `i`.
pub open spec fn run_end(cs: Seq<char>, i: int, kind: int) -> int
    decreases cs.len() - i,
{
    if i < 0 || i >= cs.len() {
        i
    } else if (kind == 0 && hex_run_char(cs[i])) || (kind == 1 && dec_run_char(cs[i])) || (kind == 2
        && word_char(cs[i])) {
        run_end(cs, i + 1, kind)
    } else {
        i
    }
}

/// The digits of `cs[i..j]`, without the `_` separators.
pub open spec fn run_digits(cs: Seq<char>, i: int, j: int) -> Seq<char>
    decreases j - i,
{
    if j <= i {
        Seq::empty()
    } else if cs[j - 1] == '_' {
        run_digits(cs, i, j - 1)
    } else {
        run_digits(cs, i, j - 1).push(cs[j - 1])
    }
}

/// The token a word stands for: a keyword, or an identifier.
pub open spec fn keyword(w: Seq<char>) -> TokenView {
    if w == "fn"@ {
        TokenView::Fn
    } else if w == "let"@ {
        TokenView::Let
    } else if w == "mut"@ {
        TokenView::Mut
    } else if w == "if"@ {
        TokenView::If
    } else if w == "else"@ {
        TokenView::Else
    } else if w == "while"@ {
        TokenView::While
    } else if w == "loop"@ {
        TokenView::Loop
    } else if w == "return"@ {
        TokenView::Return
    } else if w == "break"@ {
        TokenView::Break
    } else if w == "continue"@ {
        TokenView::Continue
    } else if w == "u32"@ {
        TokenView::U32
    } else if w == "i32"@ {
        TokenView::I32
    } else if w == "bool"@ {
        TokenView::Bool
    } else if w == "true"@ {
        TokenView::True
    } else if w == "false"@ {
        TokenView::False
    } else {
        TokenView::Ident(w)
    }
}

/// The operator or delimiter at `i` and where it ends.
pub open spec fn op_at(cs: Seq<char>, i: int) -> Option<(TokenView, int)> {
    let c = cs[i];
    let next_is = |d: char| i + 1 < cs.len() && cs[i + 1] == d;
    if c == '+' {
        Some((TokenView::Plus, i + 1))
    } else if c == '-' {
        if next_is('>') { Some((TokenView::Arrow, i + 2)) } else { Some((TokenView::Minus, i + 1)) }
    } else if c == '*' {
        Some((TokenView::Star, i + 1))
    } else if c == '/' {
        Some((TokenView::Slash, i + 1))
    } else if c == '%' {
        Some((TokenView::Percent, i + 1))
    } else if c == '&' {
        if next_is('&') { Some((TokenView::AmpAmp, i + 2)) } else { Some((TokenView::Amp, i + 1)) }
    } else if c == '|' {
        if next_is('|') { Some((TokenView::PipePipe, i + 2)) } else { Some((TokenView::Pipe, i + 1)) }
    } else if c == '^' {
        Some((TokenView::Caret, i + 1))
    } else if c == '!' {
        if next_is('=') { Some((TokenView::BangEq, i + 2)) } else { Some((TokenView::Bang, i + 1)) }
    } else if c == '=' {
        if next_is('=') { Some((TokenView::EqEq, i + 2)) } else { Some((TokenView::Eq, i + 1)) }
    } else if c == '<' {
        if next_is('=') { Some((TokenView::LtEq, i + 2)) } else { Some((TokenView::Lt, i + 1)) }
    } else if c == '>' {
        if next_is('=') { Some((TokenView::GtEq, i + 2)) } else { Some((TokenView::Gt, i + 1)) }
    } else if c == '(' {
        Some((TokenView::LParen, i + 1))
    } else if c == ')' {
        Some((TokenView::RParen, i + 1))
    } else if c == '{' {
        Some((TokenView::LBrace, i + 1))
    } else if c == '}' {
        Some((TokenView::RBrace, i + 1))
    } else if c == ',' {
        Some((TokenView::Comma, i + 1))
    } else if c == ';' {
        Some((TokenView::Semi, i + 1))
    } else if c == ':' {
        Some((TokenView::Colon, i + 1))
    } else {
        None
    }
}

/// Whether an integer literal at `i` is hexadecimal (`0x` or `0X`).
pub open spec fn hex_prefix(cs: Seq<char>, i: int) -> bool {
    cs[i] == '0' && i + 1 < cs.len() && (cs[i + 1] == 'x' || cs[i + 1] == 'X')
}

/// The value of the integer literal at `i` (`None` if malformed or above
/// `u32::MAX`) and where it ends.
pub open spec fn int_at(cs: Seq<char>, i: int) -> (Option<u32>, int) {
    let (start, kind, radix) = if hex_prefix(cs, i) { (i + 2, 0int, 16nat) } else { (i, 1int, 10nat) };
    let e = run_end(cs, start, kind);
    match number_value(run_digits(cs, start, e), radix, u32::MAX as nat) {
        Some(v) => (Some(v as u32), e),
        None => (None, e),
    }
}

/// Tokenising `cs` from `i` on line `line` with `acc` already produced: the
/// token list (each token with its line, ending with `Eof`), or the line of
/// the first lexical error.
pub open spec fn lex_from(cs: Seq<char>, i: int, line: int, acc: Seq<(TokenView, int)>) -> std::result::Result<Seq<(TokenView, int)>, int>
    decreases cs.len() - i,
{
    let (p, l) = skip_space(cs, i, line);
    proof {
        lemma_skip_space(cs, i, line);
    }
    if p < 0 || p >= cs.len() || p < i {
        Ok(acc.push((TokenView::Eof, l)))
    } else {
        let c = cs[p];
        if '0' <= c <= '9' {
            let (v, e) = int_at(cs, p);
            proof {
                lemma_run_end(cs, if hex_prefix(cs, p) { p + 2 } else { p }, if hex_prefix(cs, p) { 0 } else { 1 });
                lemma_run_end(cs, p, 1);
            }
            match v {
                Some(n) => lex_from(cs, e, l, acc.push((TokenView::IntLit(n), l))),
                None => Err(l),
            }
        } else if ('a' <= c <= 'z') || ('A' <= c <= 'Z') || c == '_' {
            let e = run_end(cs, p + 1, 2);
            proof {
                lemma_run_end(cs, p + 1, 2);
            }
            lex_from(cs, e, l, acc.push((keyword(cs.subrange(p, e)), l)))
        } else {
            match op_at(cs, p) {
                Some((t, e)) => lex_from(cs, e, l, acc.push((t, l))),
                None => Err(l),
            }
        }
    }
}

pub proof fn lemma_line_end(cs: Seq<char>, i: int)
    ensures
        i <= line_end(cs, i),
        0 <= i ==> line_end(cs, i) <= cs.len() || line_end(cs, i) == i,
        0 <= i <= cs.len() ==> line_end(cs, i) <= cs.len(),
    decreases cs.len() - i,
{
    if 0 <= i < cs.len() && cs[i] != '\n' {
        lemma_line_end(cs, i + 1);
    }
}

pub proof fn lemma_skip_space(cs: Seq<char>, i: int, line: int)
    ensures
        skip_space(cs, i, line).0 >= i,
        0 <= i <= cs.len() ==> skip_space(cs, i, line).0 <= cs.len(),
        skip_space(cs, i, line).1 >= line,
        skip_space(cs, i, line).1 - line <= skip_space(cs, i, line).0 - i,
    decreases cs.len() - i,
{
    if 0 <= i < cs.len() {
        if whitespace(cs[i]) {
            lemma_skip_space(cs, i + 1, if cs[i] == '\n' { line + 1 } else { line });
        } else if i + 1 < cs.len() && cs[i] == '/' && cs[i + 1] == '/' {
            lemma_line_end(cs, i + 1);
            lemma_skip_space(cs, line_end(cs, i), line);
        }
    }
}

pub proof fn lemma_run_end(cs: Seq<char>, i: int, kind: int)
    ensures
        i <= run_end(cs, i, kind),
        0 <= i <= cs.len() ==> run_end(cs, i, kind) <= cs.len(),
    decreases cs.len() - i,
{
    if 0 <= i < cs.len() {
        lemma_run_end(cs, i + 1, kind);
    }
}

pub struct Lexer {
    chars: Vec<char>,
    pos: usize,
    pub line: usize,
}

/// Where whitespace and comments from `i` end, and the line there.
fn scan_space(cs: &Vec<char>, i: usize, line: usize) -> (r: (usize, usize))
    requires
        i <= cs@.len(),
        line + (cs@.len() - i) < usize::MAX,
    ensures
        (r.0 as int, r.1 as int) == skip_space(cs@, i as int, line as int),
{
    let mut p = i;
    let mut l = line;
    while p < cs.len()
        invariant
            i <= p <= cs@.len(),
            line <= l <= line + (p - i),
            line + (cs@.len() - i) < usize::MAX,
            skip_space(cs@, p as int, l as int) == skip_space(cs@, i as int, line as int),
        decreases cs@.len() - p,
    {
        let c = cs[p];
        if is_whitespace(c) {
            if c == '\n' {
                l += 1;
            }
            p += 1;
        } else if p + 1 < cs.len() && c == '/' && cs[p + 1] == '/' {
            let ghost start = p;
            proof {
                lemma_line_end(cs@, p as int);
            }
            while p < cs.len() && cs[p] != '\n'
                invariant
                    start <= p <= cs@.len(),
                    line_end(cs@, p as int) == line_end(cs@, start as int),
                decreases cs@.len() - p,
            {
                p += 1;
            }
        } else {
            return (p, l);
        }
    }
    (p, l)
}

/// The end of the run of characters of kind `kind` from `i`.
fn scan_run(cs: &Vec<char>, i: usize, kind: u8) -> (e: usize)
    requires
        i <= cs@.len(),
        kind <= 2,
    ensures
        e == run_end(cs@, i as int, kind as int),
{
    let mut p = i;
    while p < cs.len()
        invariant
            i <= p <= cs@.len(),
            kind <= 2,
            run_end(cs@, p as int, kind as int) == run_end(cs@, i as int, kind as int),
        decreases cs@.len() - p,
    {
        let c = cs[p];
        let ok = if kind == 0 {
            ('0' <= c && c <= '9') || ('a' <= c && c <= 'f') || ('A' <= c && c <= 'F') || c == '_'
        } else if kind == 1 {
            ('0' <= c && c <= '9') || c == '_'
        } else {
            is_alphanumeric(c) || c == '_'
        };
        if !ok {
            return p;
        }
        p += 1;
    }
    p
}

/// The digits of `cs[i..j]` without `_`.
fn collect_digits(cs: &Vec<char>, i: usize, j: usize) -> (d: Vec<char>)
    requires
        i <= j <= cs@.len(),
    ensures
        d@ == run_digits(cs@, i as int, j as int),
{
    let mut d: Vec<char> = Vec::new();
    let mut k = i;
    assert(d@ =~= run_digits(cs@, i as int, i as int));
    while k < j
        invariant
            i <= k <= j <= cs@.len(),
            d@ == run_digits(cs@, i as int, k as int),
        decreases j - k,
    {
        if cs[k] != '_' {
            d.push(cs[k]);
        }
        k += 1;
    }
    d
}

/// The characters of `cs[i..j]`.
fn chars_range(cs: &Vec<char>, i: usize, j: usize) -> (v: Vec<char>)
    requires
        i <= j <= cs@.len(),
    ensures
        v@ == cs@.subrange(i as int, j as int),
{
    let mut v: Vec<char> = Vec::new();
    let mut k = i;
    while k < j
        invariant
            i <= k <= j <= cs@.len(),
            v@ == cs@.subrange(i as int, k as int),
        decreases j - k,
    {
        v.push(cs[k]);
        k += 1;
        assert(v@ =~= cs@.subrange(i as int, k as int));
    }
    v
}

/// The token a word stands for.
fn keyword_token(w: &[char]) -> (t: Token)
    ensures
        t@ == keyword(w@),
{
    if chars_eq(w, chars_of("fn").as_slice()) {
        Token::Fn
    } else if chars_eq(w, chars_of("let").as_slice()) {
        Token::Let
    } else if chars_eq(w, chars_of("mut").as_slice()) {
        Token::Mut
    } else if chars_eq(w, chars_of("if").as_slice()) {
        Token::If
    } else if chars_eq(w, chars_of("else").as_slice()) {
        Token::Else
    } else if chars_eq(w, chars_of("while").as_slice()) {
        Token::While
    } else if chars_eq(w, chars_of("loop").as_slice()) {
        Token::Loop
    } else if chars_eq(w, chars_of("return").as_slice()) {
        Token::Return
    } else if chars_eq(w, chars_of("break").as_slice()) {
        Token::Break
    } else if chars_eq(w, chars_of("continue").as_slice()) {
        Token::Continue
    } else if chars_eq(w, chars_of("u32").as_slice()) {
        Token::U32
    } else if chars_eq(w, chars_of("i32").as_slice()) {
        Token::I32
    } else if chars_eq(w, chars_of("bool").as_slice()) {
        Token::Bool
    } else if chars_eq(w, chars_of("true").as_slice()) {
        Token::True
    } else if chars_eq(w, chars_of("false").as_slice()) {
        Token::False
    } else {
        Token::Ident(string_of(w))
    }
}

/// The operator or delimiter at `i`.
fn op_token(cs: &Vec<char>, i: usize) -> (r: Option<(Token, usize)>)
    requires
        i < cs@.len(),
    ensures
        match op_at(cs@, i as int) {
            Some((t, e)) => r is Some && r->Some_0.0@ == t && r->Some_0.1 == e,
            None => r is None,
        },
{
    let c = cs[i];
    let has = cs.len() - i > 1;
    let n: char = if has { cs[i + 1] } else { ' ' };
    if c == '+' {
        Some((Token::Plus, i + 1))
    } else if c == '-' {
        if has && n == '>' { Some((Token::Arrow, i + 2)) } else { Some((Token::Minus, i + 1)) }
    } else if c == '*' {
        Some((Token::Star, i + 1))
    } else if c == '/' {
        Some((Token::Slash, i + 1))
    } else if c == '%' {
        Some((Token::Percent, i + 1))
    } else if c == '&' {
        if has && n == '&' { Some((Token::AmpAmp, i + 2)) } else { Some((Token::Amp, i + 1)) }
    } else if c == '|' {
        if has && n == '|' { Some((Token::PipePipe, i + 2)) } else { Some((Token::Pipe, i + 1)) }
    } else if c == '^' {
        Some((Token::Caret, i + 1))
    } else if c == '!' {
        if has && n == '=' { Some((Token::BangEq, i + 2)) } else { Some((Token::Bang, i + 1)) }
    } else if c == '=' {
        if has && n == '=' { Some((Token::EqEq, i + 2)) } else { Some((Token::Eq, i + 1)) }
    } else if c == '<' {
        if has && n == '=' { Some((Token::LtEq, i + 2)) } else { Some((Token::Lt, i + 1)) }
    } else if c == '>' {
        if has && n == '=' { Some((Token::GtEq, i + 2)) } else { Some((Token::Gt, i + 1)) }
    } else if c == '(' {
        Some((Token::LParen, i + 1))
    } else if c == ')' {
        Some((Token::RParen, i + 1))
    } else if c == '{' {
        Some((Token::LBrace, i + 1))
    } else if c == '}' {
        Some((Token::RBrace, i + 1))
    } else if c == ',' {
        Some((Token::Comma, i + 1))
    } else if c == ';' {
        Some((Token::Semi, i + 1))
    } else if c == ':' {
        Some((Token::Colon, i + 1))
    } else {
        None
    }
}

fn lex_error(line: usize, msg: &str) -> (e: CompileError)
    ensures
        e matches CompileError::Lex { line: l, .. } && l == line,
{
    CompileError::Lex { line, msg: msg.to_owned() }
}

impl Lexer {
    /// The characters still to be read and the current position and line.
    pub closed spec fn chars_view(&self) -> Seq<char> {
        self.chars@
    }

    pub closed spec fn pos_view(&self) -> int {
        self.pos as int
    }

    pub closed spec fn line_view(&self) -> int {
        self.line as int
    }

    pub fn new(src: &str) -> (l: Self)
        ensures
            l.chars_view() == src@,
            l.pos_view() == 0,
            l.line_view() == 1,
    {
        Lexer { chars: chars_of(src), pos: 0, line: 1 }
    }

    /// Tokenise from the current position: each token with its line, the
    /// list ending with `Eof`; or the lexical error at the first character
    /// that starts no token (or a malformed or too large integer literal).
    pub fn tokenize(&mut self) -> (r: Result<Vec<(Token, usize)>>)
        requires
            old(self).pos_view() <= old(self).chars_view().len(),
            old(self).line_view() + old(self).chars_view().len() < usize::MAX,
        ensures
            match lex_from(old(self).chars_view(), old(self).pos_view(), old(self).line_view(), Seq::empty()) {
                Ok(ts) => r is Ok && token_lines_view(r->Ok_0@) == ts,
                Err(line) => r matches Err(CompileError::Lex { line: l, .. }) && l == line,
            },
    {
        let ghost target = lex_from(self.chars@, self.pos as int, self.line as int, Seq::empty());
        let mut out: Vec<(Token, usize)> = Vec::new();
        assert(token_lines_view(out@) =~= Seq::<(TokenView, int)>::empty());
        loop
            invariant
                self.pos <= self.chars@.len(),
                self.line + (self.chars@.len() - self.pos) < usize::MAX,
                lex_from(self.chars@, self.pos as int, self.line as int, token_lines_view(out@)) == target,
                target == lex_from(old(self).chars_view(), old(self).pos_view(), old(self).line_view(), Seq::empty()),
            decreases self.chars@.len() - self.pos,
        {
            let ghost acc = token_lines_view(out@);
            let ghost (p0, l0) = (self.pos as int, self.line as int);
            let (p, l) = scan_space(&self.chars, self.pos, self.line);
            proof {
                lemma_skip_space(self.chars@, p0, l0);
            }
            self.pos = p;
            self.line = l;
            if p >= self.chars.len() {
                out.push((Token::Eof, l));
                assert(token_lines_view(out@) =~= acc.push((TokenView::Eof, l as int)));
                return Ok(out);
            }
            let c = self.chars[p];
            if '0' <= c && c <= '9' {
                let hex = c == '0' && p + 1 < self.chars.len() && (self.chars[p + 1] == 'x' || self.chars[p + 1] == 'X');
                let start = if hex { p + 2 } else { p };
                let e = scan_run(&self.chars, start, if hex { 0 } else { 1 });
                proof {
                    lemma_run_end(self.chars@, start as int, if hex { 0 } else { 1 });
                    lemma_run_end(self.chars@, p as int, 1);
                }
                let digits = collect_digits(&self.chars, start, e);
                match parse_number(digits.as_slice(), if hex { 16 } else { 10 }, 0xFFFF_FFFF) {
                    Some(v) => {
                        out.push((Token::IntLit(v as u32), l));
                        assert(token_lines_view(out@) =~= acc.push((TokenView::IntLit(v as u32), l as int)));
                        self.pos = e;
                    },
                    None => {
                        return Err(lex_error(l, if hex { "bad hex literal" } else { "integer out of range" }));
                    },
                }
            } else if ('a' <= c && c <= 'z') || ('A' <= c && c <= 'Z') || c == '_' {
                let e = scan_run(&self.chars, p + 1, 2);
                proof {
                    lemma_run_end(self.chars@, p + 1, 2);
                }
                let w = chars_range(&self.chars, p, e);
                let t = keyword_token(w.as_slice());
                out.push((t, l));
                assert(token_lines_view(out@) =~= acc.push((keyword(self.chars@.subrange(p as int, e as int)), l as int)));
                self.pos = e;
            } else {
                match op_token(&self.chars, p) {
                    Some((t, e)) => {
                        let ghost tv = t@;
                        out.push((t, l));
                        assert(token_lines_view(out@) =~= acc.push((tv, l as int)));
                        self.pos = e;
                    },
                    None => {
                        let mut msg = "unexpected char '".to_owned();
                        push_char(&mut msg, c);
                        push_char(&mut msg, '\'');
                        return Err(CompileError::Lex { line: l, msg });
                    },
                }
            }
        }
    }
}

} // verus!
