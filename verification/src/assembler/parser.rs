//! Recursive-descent parser: token stream → Vec<Item>.
use vstd::prelude::*;
use crate::assembler::ast::{
    args_view, items_view, operands_view, DataArg, DataArgView, DataKind, Item, ItemView, Operand,
    OperandView,
};
use crate::assembler::error::{AsmError, AsmResult};
use crate::assembler::lexer::{tokens_view, Token, TokenView};
use crate::text::{lowercase, string_is, to_lowercase};

verus! {

/// Parser position: token index and current source line.
pub struct PState {
    pub pos: int,
    pub line: int,
}

pub open spec fn peek_tok(t: Seq<TokenView>, pos: int) -> Option<TokenView> {
    if 0 <= pos < t.len() { Some(t[pos]) } else { None }
}

/// Step over one token; stepping over a newline token moves to the next line.
pub open spec fn adv(t: Seq<TokenView>, s: PState) -> PState {
    PState {
        pos: s.pos + 1,
        line: if 0 <= s.pos < t.len() && t[s.pos] is Newline { s.line + 1 } else { s.line },
    }
}

pub open spec fn at_line_end(t: Seq<TokenView>, pos: int) -> bool {
    match peek_tok(t, pos) {
        None => true,
        Some(TokenView::Newline) => true,
        _ => false,
    }
}

pub open spec fn is_comma(t: Seq<TokenView>, pos: int) -> bool {
    peek_tok(t, pos) matches Some(TokenView::Comma)
}

pub open spec fn eat_newlines_spec(t: Seq<TokenView>, s: PState) -> PState
    decreases t.len() - s.pos,
{
    if 0 <= s.pos < t.len() && t[s.pos] is Newline {
        eat_newlines_spec(t, adv(t, s))
    } else {
        s
    }
}

pub open spec fn operand_spec(t: Seq<TokenView>, s: PState) -> Result<(OperandView, PState), int> {
    match peek_tok(t, s.pos) {
        Some(TokenView::Reg(r)) => Ok((OperandView::Reg(r), adv(t, s))),
        Some(TokenView::LBracket) => {
            let s1 = adv(t, s);
            match peek_tok(t, s1.pos) {
                Some(TokenView::Reg(r)) => {
                    let s2 = adv(t, s1);
                    match peek_tok(t, s2.pos) {
                        Some(TokenView::RBracket) => Ok((OperandView::Mem(r), adv(t, s2))),
                        _ => Err(s.line),
                    }
                },
                _ => Err(s.line),
            }
        },
        Some(TokenView::Number(n)) => Ok((OperandView::Imm(n), adv(t, s))),
        Some(TokenView::Ident(x)) => Ok((OperandView::Symbol(x), adv(t, s))),
        _ => Err(s.line),
    }
}

pub proof fn lemma_operand_advances(t: Seq<TokenView>, s: PState)
    ensures
        operand_spec(t, s) matches Ok((_, s2)) ==> s2.pos > s.pos,
{
}

/// Further comma-separated operands after those in `acc`.
pub open spec fn more_operands(t: Seq<TokenView>, s: PState, acc: Seq<OperandView>) -> Result<(Seq<OperandView>, PState), int>
    decreases t.len() - s.pos,
{
    if is_comma(t, s.pos) {
        match operand_spec(t, adv(t, s)) {
            Ok((o, s2)) => {
                proof {
                    lemma_operand_advances(t, adv(t, s));
                }
                more_operands(t, s2, acc.push(o))
            },
            Err(l) => Err(l),
        }
    } else {
        Ok((acc, s))
    }
}

pub open spec fn operands_spec(t: Seq<TokenView>, s: PState) -> Result<(Seq<OperandView>, PState), int> {
    if at_line_end(t, s.pos) {
        Ok((Seq::empty(), s))
    } else {
        match operand_spec(t, s) {
            Ok((o, s1)) => more_operands(t, s1, seq![o]),
            Err(l) => Err(l),
        }
    }
}

pub open spec fn data_arg_spec(t: Seq<TokenView>, s: PState) -> Result<(DataArgView, PState), int> {
    match peek_tok(t, s.pos) {
        Some(TokenView::Number(n)) => Ok((DataArgView::Number(n), adv(t, s))),
        Some(TokenView::Str(x)) => Ok((DataArgView::Str(x), adv(t, s))),
        Some(TokenView::Ident(x)) => Ok((DataArgView::Symbol(x), adv(t, s))),
        _ => Err(s.line),
    }
}

pub open spec fn more_data_args(t: Seq<TokenView>, s: PState, acc: Seq<DataArgView>) -> Result<(Seq<DataArgView>, PState), int>
    decreases t.len() - s.pos,
{
    if is_comma(t, s.pos) {
        match data_arg_spec(t, adv(t, s)) {
            Ok((a, s2)) => {
                proof {
                    lemma_data_arg_advances(t, adv(t, s));
                }
                more_data_args(t, s2, acc.push(a))
            },
            Err(l) => Err(l),
        }
    } else {
        Ok((acc, s))
    }
}

pub open spec fn data_args_spec(t: Seq<TokenView>, s: PState) -> Result<(Seq<DataArgView>, PState), int> {
    if at_line_end(t, s.pos) {
        Ok((Seq::empty(), s))
    } else {
        match data_arg_spec(t, s) {
            Ok((a, s1)) => more_data_args(t, s1, seq![a]),
            Err(l) => Err(l),
        }
    }
}

pub open spec fn imm_i64_spec(t: Seq<TokenView>, s: PState) -> Result<(i64, PState), int> {
    match peek_tok(t, s.pos) {
        Some(TokenView::Number(n)) => Ok((n, adv(t, s))),
        _ => Err(s.line),
    }
}

pub open spec fn imm_u32_spec(t: Seq<TokenView>, s: PState) -> Result<(u32, PState), int> {
    match imm_i64_spec(t, s) {
        Ok((n, s1)) => if n < 0 || n > 0xFFFF_FFFF {
            Err(s.line)
        } else {
            Ok((n as u32, s1))
        },
        Err(l) => Err(l),
    }
}

pub open spec fn data_item(t: Seq<TokenView>, s: PState, kind: DataKind, line: int) -> Result<(ItemView, PState), int> {
    match data_args_spec(t, s) {
        Ok((args, s2)) => Ok((ItemView::Data { kind, args, line }, s2)),
        Err(l) => Err(l),
    }
}

/// A directive whose `.` was just consumed; `line` is the directive's line.
pub open spec fn directive_spec(t: Seq<TokenView>, s: PState, line: int) -> Result<(ItemView, PState), int> {
    match peek_tok(t, s.pos) {
        Some(TokenView::Ident(x)) => {
            let s1 = adv(t, s);
            let name = lowercase(x);
            if name == "byte"@ || name == "string"@ {
                data_item(t, s1, DataKind::Byte, line)
            } else if name == "word"@ {
                data_item(t, s1, DataKind::Word, line)
            } else if name == "float"@ {
                data_item(t, s1, DataKind::Float, line)
            } else if name == "org"@ {
                match imm_u32_spec(t, s1) {
                    Ok((addr, s2)) => Ok((ItemView::Org { addr, line }, s2)),
                    Err(l) => Err(l),
                }
            } else if name == "equ"@ {
                match peek_tok(t, s1.pos) {
                    Some(TokenView::Ident(sym)) => {
                        let s2 = adv(t, s1);
                        let s3 = if is_comma(t, s2.pos) { adv(t, s2) } else { s2 };
                        match imm_i64_spec(t, s3) {
                            Ok((v, s4)) => Ok((ItemView::Equ { name: sym, value: v, line }, s4)),
                            Err(l) => Err(l),
                        }
                    },
                    _ => Err(line),
                }
            } else {
                Err(line)
            }
        },
        _ => Err(line),
    }
}

/// The items of one line after its leading newlines: labels, then at most
/// one instruction or directive.
pub open spec fn line_body_spec(t: Seq<TokenView>, s: PState, items: Seq<ItemView>) -> Result<(Seq<ItemView>, PState), int>
    decreases t.len() - s.pos,
{
    match peek_tok(t, s.pos) {
        Some(TokenView::Ident(name)) => {
            let s1 = adv(t, s);
            if peek_tok(t, s1.pos) matches Some(TokenView::Colon) {
                line_body_spec(t, adv(t, s1), items.push(ItemView::Label(name)))
            } else {
                match operands_spec(t, s1) {
                    Ok((ops, s2)) => Ok(
                        (
                            items.push(
                                ItemView::Instruction { mnemonic: lowercase(name), operands: ops, line: s1.line },
                            ),
                            s2,
                        ),
                    ),
                    Err(l) => Err(l),
                }
            }
        },
        Some(TokenView::Dot) => {
            let s1 = adv(t, s);
            match directive_spec(t, s1, s1.line) {
                Ok((it, s2)) => Ok((items.push(it), s2)),
                Err(l) => Err(l),
            }
        },
        Some(TokenView::Newline) => Ok((items, s)),
        None => Ok((items, s)),
        _ => Err(s.line),
    }
}

/// One line: leading newlines, its items, and the newline that ends it.
pub open spec fn line_spec(t: Seq<TokenView>, s: PState, items: Seq<ItemView>) -> Result<(Seq<ItemView>, PState), int> {
    let s0 = eat_newlines_spec(t, s);
    if s0.pos >= t.len() {
        Ok((items, s0))
    } else {
        match line_body_spec(t, s0, items) {
            Err(l) => Err(l),
            Ok((its, s1)) => if at_line_end(t, s1.pos) {
                Ok((its, adv(t, s1)))
            } else {
                Err(s1.line)
            },
        }
    }
}

pub proof fn lemma_data_arg_advances(t: Seq<TokenView>, s: PState)
    ensures
        data_arg_spec(t, s) matches Ok((_, s2)) ==> s2.pos == s.pos + 1,
{
}

pub proof fn lemma_eat_newlines(t: Seq<TokenView>, s: PState)
    ensures
        eat_newlines_spec(t, s).pos >= s.pos,
        eat_newlines_spec(t, s).line >= s.line,
    decreases t.len() - s.pos,
{
    if 0 <= s.pos < t.len() && t[s.pos] is Newline {
        lemma_eat_newlines(t, adv(t, s));
    }
}

pub proof fn lemma_more_operands(t: Seq<TokenView>, s: PState, acc: Seq<OperandView>)
    ensures
        more_operands(t, s, acc) matches Ok((_, s2)) ==> s2.pos >= s.pos,
    decreases t.len() - s.pos,
{
    if is_comma(t, s.pos) {
        lemma_operand_advances(t, adv(t, s));
        if let Ok((o, s2)) = operand_spec(t, adv(t, s)) {
            lemma_more_operands(t, s2, acc.push(o));
        }
    }
}

pub proof fn lemma_more_data_args(t: Seq<TokenView>, s: PState, acc: Seq<DataArgView>)
    ensures
        more_data_args(t, s, acc) matches Ok((_, s2)) ==> s2.pos >= s.pos,
    decreases t.len() - s.pos,
{
    if is_comma(t, s.pos) {
        if let Ok((a, s2)) = data_arg_spec(t, adv(t, s)) {
            lemma_more_data_args(t, s2, acc.push(a));
        }
    }
}

pub proof fn lemma_line_body(t: Seq<TokenView>, s: PState, items: Seq<ItemView>)
    ensures
        line_body_spec(t, s, items) matches Ok((_, s2)) ==> s2.pos >= s.pos,
    decreases t.len() - s.pos,
{
    match peek_tok(t, s.pos) {
        Some(TokenView::Ident(name)) => {
            let s1 = adv(t, s);
            if peek_tok(t, s1.pos) matches Some(TokenView::Colon) {
                lemma_line_body(t, adv(t, s1), items.push(ItemView::Label(name)));
            } else {
                if !at_line_end(t, s1.pos) {
                    lemma_operand_advances(t, s1);
                    if let Ok((o, s2)) = operand_spec(t, s1) {
                        lemma_more_operands(t, s2, seq![o]);
                    }
                }
            }
        },
        Some(TokenView::Dot) => {
            let s1 = adv(t, s);
            if let Some(TokenView::Ident(x)) = peek_tok(t, s1.pos) {
                let s2 = adv(t, s1);
                if !at_line_end(t, s2.pos) {
                    if let Ok((a, s3)) = data_arg_spec(t, s2) {
                        lemma_more_data_args(t, s3, seq![a]);
                    }
                }
            }
        },
        _ => {},
    }
}

pub proof fn lemma_line_advances(t: Seq<TokenView>, s: PState, items: Seq<ItemView>)
    requires
        0 <= s.pos < t.len(),
    ensures
        line_spec(t, s, items) matches Ok((_, s2)) ==> s2.pos > s.pos,
{
    lemma_eat_newlines(t, s);
    let s0 = eat_newlines_spec(t, s);
    if s0.pos < t.len() {
        lemma_line_body(t, s0, items);
    }
}

/// Parsing lines from position `s` with `items` already parsed.
pub open spec fn parse_from(t: Seq<TokenView>, s: PState, items: Seq<ItemView>) -> Result<Seq<ItemView>, int>
    decreases (if s.pos <= t.len() { t.len() - s.pos } else { 0 }),
{
    if s.pos >= t.len() || s.pos < 0 {
        Ok(items)
    } else {
        match line_spec(t, s, items) {
            Ok((its, s1)) => {
                proof {
                    lemma_line_advances(t, s, items);
                }
                parse_from(t, s1, its)
            },
            Err(l) => Err(l),
        }
    }
}

pub struct Parser {
    tokens: Vec<Token>,
    pos: usize,
    /// Line counter (Newline tokens advance this).
    line: usize,
}

fn err(line: usize, msg: &str) -> (e: AsmError)
    ensures
        e.line == line,
{
    AsmError::new(line, msg.to_owned())
}

impl Parser {
    pub closed spec fn toks(&self) -> Seq<TokenView> {
        tokens_view(self.tokens@)
    }

    pub closed spec fn state(&self) -> PState {
        PState { pos: self.pos as int, line: self.line as int }
    }

    pub closed spec fn wf(&self) -> bool {
        &&& self.pos <= self.tokens@.len() + 1
        &&& 1 <= self.line <= self.pos + 1
        &&& self.tokens@.len() + 2 < usize::MAX
    }

    pub fn new(tokens: Vec<Token>) -> (p: Self)
        requires
            tokens@.len() + 2 < usize::MAX,
        ensures
            p.wf(),
            p.toks() == tokens_view(tokens@),
            p.state() == (PState { pos: 0, line: 1 }),
    {
        Parser { tokens, pos: 0, line: 1 }
    }

    pub fn parse(&mut self) -> (r: AsmResult<Vec<Item>>)
        requires
            old(self).wf(),
        ensures
            match parse_from(old(self).toks(), old(self).state(), Seq::empty()) {
                Ok(items) => r is Ok && items_view(r->Ok_0@) == items,
                Err(l) => r is Err && r->Err_0.line == l,
            },
    {
        let mut items: Vec<Item> = Vec::new();
        assert(items_view(items@) =~= Seq::<ItemView>::empty());
        while !self.at_end()
            invariant
                self.wf(),
                self.toks() == old(self).toks(),
                parse_from(self.toks(), self.state(), items_view(items@)) == parse_from(
                    old(self).toks(),
                    old(self).state(),
                    Seq::empty(),
                ),
            decreases self.tokens@.len() + 1 - self.pos,
        {
            proof {
                lemma_line_advances(self.toks(), self.state(), items_view(items@));
            }
            self.parse_line(&mut items)?;
        }
        Ok(items)
    }

    // ── helpers ──────────────────────────────────────────────────────────────
    fn at_end(&self) -> (b: bool)
        ensures
            b == (self.pos >= self.toks().len()),
    {
        self.pos >= self.tokens.len()
    }

    fn advance(&mut self)
        requires
            old(self).wf(),
            old(self).pos <= old(self).tokens@.len(),
        ensures
            final(self).wf(),
            final(self).toks() == old(self).toks(),
            final(self).state() == adv(old(self).toks(), old(self).state()),
    {
        if self.pos < self.tokens.len() {
            if let Token::Newline = self.tokens[self.pos] {
                self.line += 1;
            }
        }
        self.pos += 1;
    }

    /// Whether the next token is a newline or the tokens have run out.
    fn at_line_end(&self) -> (b: bool)
        ensures
            b == at_line_end(self.toks(), self.pos as int),
    {
        if self.pos >= self.tokens.len() {
            return true;
        }
        match self.tokens[self.pos] {
            Token::Newline => true,
            _ => false,
        }
    }

    fn peek_is_newline(&self) -> (b: bool)
        ensures
            b == (0 <= self.pos < self.toks().len() && self.toks()[self.pos as int] is Newline),
    {
        self.pos < self.tokens.len() && match self.tokens[self.pos] {
            Token::Newline => true,
            _ => false,
        }
    }

    /// Consume a `,` or report that one was expected.
    fn expect_comma(&mut self) -> (r: AsmResult<()>)
        requires
            old(self).wf(),
            old(self).pos <= old(self).tokens@.len(),
        ensures
            final(self).wf(),
            final(self).toks() == old(self).toks(),
            if is_comma(old(self).toks(), old(self).pos as int) {
                r is Ok && final(self).state() == adv(old(self).toks(), old(self).state())
            } else {
                r is Err && r->Err_0.line == old(self).line
            },
    {
        if self.peek_is_comma() {
            self.advance();
            Ok(())
        } else {
            Err(err(self.line, "expected ','"))
        }
    }

    fn peek_is_comma(&self) -> (b: bool)
        ensures
            b == is_comma(self.toks(), self.pos as int),
    {
        self.pos < self.tokens.len() && match self.tokens[self.pos] {
            Token::Comma => true,
            _ => false,
        }
    }

    fn eat_newlines(&mut self)
        requires
            old(self).wf(),
            old(self).pos <= old(self).tokens@.len(),
        ensures
            final(self).wf(),
            final(self).toks() == old(self).toks(),
            final(self).pos <= final(self).tokens@.len(),
            final(self).state() == eat_newlines_spec(old(self).toks(), old(self).state()),
    {
        while self.peek_is_newline()
            invariant
                self.wf(),
                self.toks() == old(self).toks(),
                self.pos <= self.tokens@.len(),
                eat_newlines_spec(self.toks(), self.state()) == eat_newlines_spec(
                    old(self).toks(),
                    old(self).state(),
                ),
            decreases self.tokens@.len() - self.pos,
        {
            self.advance();
        }
    }

    fn expect_newline(&mut self) -> (r: AsmResult<()>)
        requires
            old(self).wf(),
            old(self).pos <= old(self).tokens@.len(),
        ensures
            final(self).wf(),
            final(self).toks() == old(self).toks(),
            if at_line_end(old(self).toks(), old(self).pos as int) {
                r is Ok && final(self).state() == adv(old(self).toks(), old(self).state())
            } else {
                r is Err && r->Err_0.line == old(self).line
            },
    {
        if self.at_line_end() {
            self.advance();
            Ok(())
        } else {
            Err(err(self.line, "expected newline"))
        }
    }

    // ── parse_line ────────────────────────────────────────────────────────────
    fn parse_line(&mut self, items: &mut Vec<Item>) -> (r: AsmResult<()>)
        requires
            old(self).wf(),
            old(self).pos < old(self).tokens@.len(),
        ensures
            final(self).wf(),
            final(self).toks() == old(self).toks(),
            match line_spec(old(self).toks(), old(self).state(), items_view(old(items)@)) {
                Ok((its, s)) => r is Ok && items_view(final(items)@) == its && final(self).state() == s,
                Err(l) => r is Err && r->Err_0.line == l,
            },
    {
        self.eat_newlines();
        if self.at_end() {
            return Ok(());
        }
        self.parse_line_body(items)?;
        self.expect_newline()
    }

    fn parse_line_body(&mut self, items: &mut Vec<Item>) -> (r: AsmResult<()>)
        requires
            old(self).wf(),
            old(self).pos <= old(self).tokens@.len(),
        ensures
            final(self).wf(),
            final(self).toks() == old(self).toks(),
            final(self).pos <= final(self).tokens@.len(),
            match line_body_spec(old(self).toks(), old(self).state(), items_view(old(items)@)) {
                Ok((its, s)) => r is Ok && items_view(final(items)@) == its && final(self).state() == s,
                Err(l) => r is Err && r->Err_0.line == l,
            },
    {
        loop
            invariant
                self.wf(),
                self.toks() == old(self).toks(),
                self.pos <= self.tokens@.len(),
                line_body_spec(self.toks(), self.state(), items_view(items@)) == line_body_spec(
                    old(self).toks(),
                    old(self).state(),
                    items_view(old(items)@),
                ),
            decreases self.tokens@.len() - self.pos,
        {
            if self.pos >= self.tokens.len() {
                return Ok(());
            }
            let ghost t = self.toks();
            let ghost acc = items_view(items@);
            match &self.tokens[self.pos] {
                Token::Ident(name) => {
                    let name = name.clone();
                    self.advance();
                    let colon = self.pos < self.tokens.len() && match self.tokens[self.pos] {
                        Token::Colon => true,
                        _ => false,
                    };
                    if colon {
                        self.advance();
                        let it = Item::Label(name);
                        items.push(it);
                        assert(items_view(items@) =~= acc.push(it@));
                    } else {
                        let line = self.line;
                        let operands = self.parse_operands()?;
                        let mnemonic = to_lowercase(name.as_str());
                        let it = Item::Instruction { mnemonic, operands, line };
                        items.push(it);
                        assert(items_view(items@) =~= acc.push(it@));
                        return Ok(());
                    }
                },
                Token::Dot => {
                    self.advance();
                    let line = self.line;
                    let it = self.parse_directive(line)?;
                    items.push(it);
                    assert(items_view(items@) =~= acc.push(it@));
                    return Ok(());
                },
                Token::Newline => {
                    return Ok(());
                },
                _ => {
                    return Err(err(self.line, "unexpected token"));
                },
            }
        }
    }

    // ── directives ────────────────────────────────────────────────────────────
    fn parse_data_item(&mut self, kind: DataKind, line: usize) -> (r: AsmResult<Item>)
        requires
            old(self).wf(),
            old(self).pos <= old(self).tokens@.len(),
        ensures
            final(self).wf(),
            final(self).toks() == old(self).toks(),
            final(self).pos <= final(self).tokens@.len(),
            match data_item(old(self).toks(), old(self).state(), kind, line as int) {
                Ok((it, s)) => r is Ok && r->Ok_0@ == it && final(self).state() == s,
                Err(l) => r is Err && r->Err_0.line == l,
            },
    {
        let args = self.parse_data_args()?;
        Ok(Item::Data { kind, args, line })
    }

    fn parse_directive(&mut self, line: usize) -> (r: AsmResult<Item>)
        requires
            old(self).wf(),
            old(self).pos <= old(self).tokens@.len(),
        ensures
            final(self).wf(),
            final(self).toks() == old(self).toks(),
            final(self).pos <= final(self).tokens@.len(),
            match directive_spec(old(self).toks(), old(self).state(), line as int) {
                Ok((it, s)) => r is Ok && r->Ok_0@ == it && final(self).state() == s,
                Err(l) => r is Err && r->Err_0.line == l,
            },
    {
        if self.pos >= self.tokens.len() {
            return Err(err(line, "expected directive name"));
        }
        let name = match &self.tokens[self.pos] {
            Token::Ident(s) => to_lowercase(s.as_str()),
            _ => {
                return Err(err(line, "expected directive name"));
            },
        };
        self.advance();
        if string_is(&name, "byte") || string_is(&name, "string") {
            self.parse_data_item(DataKind::Byte, line)
        } else if string_is(&name, "word") {
            self.parse_data_item(DataKind::Word, line)
        } else if string_is(&name, "float") {
            self.parse_data_item(DataKind::Float, line)
        } else if string_is(&name, "org") {
            let addr = self.parse_imm_u32()?;
            Ok(Item::Org { addr, line })
        } else if string_is(&name, "equ") {
            if self.pos >= self.tokens.len() {
                return Err(err(line, "expected identifier after .equ"));
            }
            let sym_name = match &self.tokens[self.pos] {
                Token::Ident(s) => s.clone(),
                _ => {
                    return Err(err(line, "expected identifier after .equ"));
                },
            };
            self.advance();
            // Optional comma between name and value.
            if self.peek_is_comma() {
                self.advance();
            }
            let value = self.parse_imm_i64()?;
            Ok(Item::Equ { name: sym_name, value, line })
        } else {
            Err(err(line, "unknown directive"))
        }
    }

    // ── operands ──────────────────────────────────────────────────────────────
    fn parse_operands(&mut self) -> (r: AsmResult<Vec<Operand>>)
        requires
            old(self).wf(),
            old(self).pos <= old(self).tokens@.len(),
        ensures
            final(self).wf(),
            final(self).toks() == old(self).toks(),
            final(self).pos <= final(self).tokens@.len(),
            match operands_spec(old(self).toks(), old(self).state()) {
                Ok((ops, s)) => r is Ok && operands_view(r->Ok_0@) == ops && final(self).state() == s,
                Err(l) => r is Err && r->Err_0.line == l,
            },
    {
        let mut ops: Vec<Operand> = Vec::new();
        // If the next token is a newline or EOF there are no operands.
        if self.at_line_end() {
            assert(operands_view(ops@) =~= Seq::<OperandView>::empty());
            return Ok(ops);
        }
        let first = self.parse_operand()?;
        ops.push(first);
        assert(operands_view(ops@) =~= seq![first@]);
        while self.peek_is_comma()
            invariant
                self.wf(),
                self.toks() == old(self).toks(),
                self.pos <= self.tokens@.len(),
                more_operands(self.toks(), self.state(), operands_view(ops@)) == operands_spec(
                    old(self).toks(),
                    old(self).state(),
                ),
            decreases self.tokens@.len() - self.pos,
        {
            let ghost acc = operands_view(ops@);
            self.advance();
            let o = self.parse_operand()?;
            ops.push(o);
            assert(operands_view(ops@) =~= acc.push(o@));
        }
        Ok(ops)
    }

    fn parse_operand(&mut self) -> (r: AsmResult<Operand>)
        requires
            old(self).wf(),
            old(self).pos <= old(self).tokens@.len(),
        ensures
            final(self).wf(),
            final(self).toks() == old(self).toks(),
            final(self).pos <= final(self).tokens@.len(),
            match operand_spec(old(self).toks(), old(self).state()) {
                Ok((o, s)) => r is Ok && r->Ok_0@ == o && final(self).state() == s,
                Err(l) => r is Err && r->Err_0.line == l,
            },
    {
        let line = self.line;
        if self.pos >= self.tokens.len() {
            return Err(err(line, "expected operand"));
        }
        match &self.tokens[self.pos] {
            Token::Reg(r) => {
                let r = *r;
                self.advance();
                Ok(Operand::Reg(r))
            },
            Token::LBracket => {
                self.advance();
                if self.pos >= self.tokens.len() {
                    return Err(err(line, "expected register inside '['"));
                }
                let r = match self.tokens[self.pos] {
                    Token::Reg(r) => r,
                    _ => {
                        return Err(err(line, "expected register inside '['"));
                    },
                };
                self.advance();
                if self.pos >= self.tokens.len() {
                    return Err(err(line, "expected ']'"));
                }
                match self.tokens[self.pos] {
                    Token::RBracket => {},
                    _ => {
                        return Err(err(line, "expected ']'"));
                    },
                }
                self.advance();
                Ok(Operand::Mem(r))
            },
            Token::Number(n) => {
                let n = *n;
                self.advance();
                Ok(Operand::Imm(n))
            },
            Token::Ident(s) => {
                let s = s.clone();
                self.advance();
                Ok(Operand::Symbol(s))
            },
            _ => Err(err(line, "expected operand")),
        }
    }

    // ── data args ─────────────────────────────────────────────────────────────
    fn parse_data_args(&mut self) -> (r: AsmResult<Vec<DataArg>>)
        requires
            old(self).wf(),
            old(self).pos <= old(self).tokens@.len(),
        ensures
            final(self).wf(),
            final(self).toks() == old(self).toks(),
            final(self).pos <= final(self).tokens@.len(),
            match data_args_spec(old(self).toks(), old(self).state()) {
                Ok((args, s)) => r is Ok && args_view(r->Ok_0@) == args && final(self).state() == s,
                Err(l) => r is Err && r->Err_0.line == l,
            },
    {
        let mut args: Vec<DataArg> = Vec::new();
        if self.at_line_end() {
            assert(args_view(args@) =~= Seq::<DataArgView>::empty());
            return Ok(args);
        }
        let first = self.parse_data_arg()?;
        args.push(first);
        assert(args_view(args@) =~= seq![first@]);
        while self.peek_is_comma()
            invariant
                self.wf(),
                self.toks() == old(self).toks(),
                self.pos <= self.tokens@.len(),
                more_data_args(self.toks(), self.state(), args_view(args@)) == data_args_spec(
                    old(self).toks(),
                    old(self).state(),
                ),
            decreases self.tokens@.len() - self.pos,
        {
            let ghost acc = args_view(args@);
            self.advance();
            let a = self.parse_data_arg()?;
            args.push(a);
            assert(args_view(args@) =~= acc.push(a@));
        }
        Ok(args)
    }

    fn parse_data_arg(&mut self) -> (r: AsmResult<DataArg>)
        requires
            old(self).wf(),
            old(self).pos <= old(self).tokens@.len(),
        ensures
            final(self).wf(),
            final(self).toks() == old(self).toks(),
            final(self).pos <= final(self).tokens@.len(),
            match data_arg_spec(old(self).toks(), old(self).state()) {
                Ok((a, s)) => r is Ok && r->Ok_0@ == a && final(self).state() == s,
                Err(l) => r is Err && r->Err_0.line == l,
            },
    {
        let line = self.line;
        if self.pos >= self.tokens.len() {
            return Err(err(line, "expected data argument"));
        }
        let a = match &self.tokens[self.pos] {
            Token::Number(n) => DataArg::Number(*n),
            Token::Str(s) => DataArg::Str(s.clone()),
            Token::Ident(s) => DataArg::Symbol(s.clone()),
            _ => {
                return Err(err(line, "expected data argument"));
            },
        };
        self.advance();
        Ok(a)
    }

    // ── immediate helpers ─────────────────────────────────────────────────────
    fn parse_imm_i64(&mut self) -> (r: AsmResult<i64>)
        requires
            old(self).wf(),
            old(self).pos <= old(self).tokens@.len(),
        ensures
            final(self).wf(),
            final(self).toks() == old(self).toks(),
            final(self).pos <= final(self).tokens@.len(),
            match imm_i64_spec(old(self).toks(), old(self).state()) {
                Ok((n, s)) => r is Ok && r->Ok_0 == n && final(self).state() == s,
                Err(l) => r is Err && r->Err_0.line == l,
            },
    {
        let line = self.line;
        if self.pos >= self.tokens.len() {
            return Err(err(line, "expected integer"));
        }
        let n = match self.tokens[self.pos] {
            Token::Number(n) => n,
            _ => {
                return Err(err(line, "expected integer"));
            },
        };
        self.advance();
        Ok(n)
    }

    fn parse_imm_u32(&mut self) -> (r: AsmResult<u32>)
        requires
            old(self).wf(),
            old(self).pos <= old(self).tokens@.len(),
        ensures
            final(self).wf(),
            final(self).toks() == old(self).toks(),
            final(self).pos <= final(self).tokens@.len(),
            match imm_u32_spec(old(self).toks(), old(self).state()) {
                Ok((n, s)) => r is Ok && r->Ok_0 == n && final(self).state() == s,
                Err(l) => r is Err && r->Err_0.line == l,
            },
    {
        let line = self.line;
        let n = self.parse_imm_i64()?;
        if n < 0 || n > 0xFFFF_FFFF {
            return Err(err(line, "address out of 32-bit range"));
        }
        Ok(n as u32)
    }
}

} // verus!
