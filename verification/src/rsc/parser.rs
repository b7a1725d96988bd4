//! Recursive-descent parser: token list → program.
use vstd::prelude::*;
use crate::rsc::ast::{
    exprs_view, functions_view, params_view, stmts_view, BinOp, Expr, ExprView, Function,
    FunctionView, Param, Program, Stmt, StmtView, Type, UnOp,
};
use crate::rsc::error::{CompileError, Result};
use crate::rsc::lexer::{token_lines_view, Token, TokenView};
use crate::text::{concat3, string_is};

verus! {

/// A result of parsing: the value and the position after it, or the line of
/// the error.
pub type PResult<T> = std::result::Result<(T, int), int>;

pub open spec fn tk(ts: Seq<(TokenView, int)>, p: int) -> TokenView {
    ts[p].0
}

pub open spec fn ln(ts: Seq<(TokenView, int)>, p: int) -> int {
    ts[p].1
}

/// The position after eating the token at `p` (the last token is never
/// stepped past).
pub open spec fn adv(ts: Seq<(TokenView, int)>, p: int) -> int {
    if p + 1 < ts.len() { p + 1 } else { p }
}

/// Expecting token `want` at `p`: the position after it, or the line of `p`.
pub open spec fn expect_spec(ts: Seq<(TokenView, int)>, p: int, want: TokenView) -> std::result::Result<int, int> {
    if tk(ts, p) == want { Ok(adv(ts, p)) } else { Err(ln(ts, p)) }
}

/// The type a type keyword names.
pub open spec fn type_of(t: TokenView) -> Option<Type> {
    match t {
        TokenView::U32 => Some(Type::U32),
        TokenView::I32 => Some(Type::I32),
        TokenView::Bool => Some(Type::Bool),
        _ => None,
    }
}

/// The binary operator token `t` stands for at precedence level `k`
/// (0: `||`, 1: `&&`, 2: comparisons, 3: `|`, 4: `^`, 5: `&`, 6: `+ -`,
/// 7: `* / %`).
pub open spec fn level_op(k: int, t: TokenView) -> Option<BinOp> {
    if k == 0 && t == TokenView::PipePipe {
        Some(BinOp::Or)
    } else if k == 1 && t == TokenView::AmpAmp {
        Some(BinOp::And)
    } else if k == 2 && t == TokenView::EqEq {
        Some(BinOp::Eq)
    } else if k == 2 && t == TokenView::BangEq {
        Some(BinOp::Ne)
    } else if k == 2 && t == TokenView::Lt {
        Some(BinOp::Lt)
    } else if k == 2 && t == TokenView::Gt {
        Some(BinOp::Gt)
    } else if k == 2 && t == TokenView::LtEq {
        Some(BinOp::Le)
    } else if k == 2 && t == TokenView::GtEq {
        Some(BinOp::Ge)
    } else if k == 3 && t == TokenView::Pipe {
        Some(BinOp::BitOr)
    } else if k == 4 && t == TokenView::Caret {
        Some(BinOp::BitXor)
    } else if k == 5 && t == TokenView::Amp {
        Some(BinOp::BitAnd)
    } else if k == 6 && t == TokenView::Plus {
        Some(BinOp::Add)
    } else if k == 6 && t == TokenView::Minus {
        Some(BinOp::Sub)
    } else if k == 7 && t == TokenView::Star {
        Some(BinOp::Mul)
    } else if k == 7 && t == TokenView::Slash {
        Some(BinOp::Div)
    } else if k == 7 && t == TokenView::Percent {
        Some(BinOp::Mod)
    } else {
        None
    }
}

/// An expression (an assignment, or an operator expression) at `p`.
pub open spec fn p_assign(ts: Seq<(TokenView, int)>, p: int) -> PResult<ExprView>
    decreases ts.len() - p, 40int,
{
    if !(0 <= p < ts.len()) {
        Err(0)
    } else {
        match p_level(ts, p, 0) {
            Err(l) => Err(l),
            Ok((lhs, q)) => if q >= p && q + 1 < ts.len() && tk(ts, q) == TokenView::Eq {
                match p_assign(ts, q + 1) {
                    Err(l) => Err(l),
                    Ok((rhs, q2)) => match lhs {
                        ExprView::Var(name) => Ok((ExprView::Assign(name, Box::new(rhs)), q2)),
                        _ => Err(ln(ts, q2)),
                    },
                }
            } else if q >= p && tk(ts, q) == TokenView::Eq {
                Err(0)
            } else {
                Ok((lhs, q))
            },
        }
    }
}

/// An operator expression of precedence level `k` or tighter at `p`.
pub open spec fn p_level(ts: Seq<(TokenView, int)>, p: int, k: int) -> PResult<ExprView>
    decreases ts.len() - p, 30 - 2 * k,
{
    if !(0 <= p < ts.len()) || !(0 <= k <= 7) {
        Err(0)
    } else {
        let first = if k == 7 { p_unary(ts, p) } else { p_level(ts, p, k + 1) };
        match first {
            Err(l) => Err(l),
            Ok((e, q)) => if p <= q < ts.len() { p_rest(ts, e, q, k) } else { Err(0) },
        }
    }
}

/// The rest of a left-associative chain at level `k`, after operand `e`.
pub open spec fn p_rest(ts: Seq<(TokenView, int)>, e: ExprView, q: int, k: int) -> PResult<ExprView>
    decreases ts.len() - q, 29 - 2 * k,
{
    if !(0 <= q < ts.len()) || !(0 <= k <= 7) {
        Err(0)
    } else {
        match level_op(k, tk(ts, q)) {
            None => Ok((e, q)),
            Some(op) => if q + 1 < ts.len() {
                let operand = if k == 7 { p_unary(ts, q + 1) } else { p_level(ts, q + 1, k + 1) };
                match operand {
                    Err(l) => Err(l),
                    Ok((r, q2)) => if q < q2 < ts.len() {
                        p_rest(ts, ExprView::BinOp(Box::new(e), op, Box::new(r)), q2, k)
                    } else {
                        Err(0)
                    },
                }
            } else {
                Err(0)
            },
        }
    }
}

/// A unary expression at `p`.
pub open spec fn p_unary(ts: Seq<(TokenView, int)>, p: int) -> PResult<ExprView>
    decreases ts.len() - p, 10int,
{
    if !(0 <= p < ts.len()) {
        Err(0)
    } else if (tk(ts, p) == TokenView::Minus || tk(ts, p) == TokenView::Bang) && p + 1 < ts.len() {
        let op = if tk(ts, p) == TokenView::Minus { UnOp::Neg } else { UnOp::Not };
        match p_unary(ts, p + 1) {
            Err(l) => Err(l),
            Ok((x, q)) => Ok((ExprView::UnOp(op, Box::new(x)), q)),
        }
    } else if tk(ts, p) == TokenView::Minus || tk(ts, p) == TokenView::Bang {
        Err(0)
    } else {
        p_primary(ts, p)
    }
}

/// A primary expression at `p`: a literal, a variable, a call or a
/// parenthesised expression.
pub open spec fn p_primary(ts: Seq<(TokenView, int)>, p: int) -> PResult<ExprView>
    decreases ts.len() - p, 8int,
{
    if !(0 <= p < ts.len()) {
        Err(0)
    } else {
        let p1 = adv(ts, p);
        match tk(ts, p) {
            TokenView::IntLit(n) => Ok((ExprView::Lit(n), p1)),
            TokenView::True => Ok((ExprView::Lit(1), p1)),
            TokenView::False => Ok((ExprView::Lit(0), p1)),
            TokenView::Ident(name) => if tk(ts, p1) == TokenView::LParen {
                if p1 > p && p1 + 1 < ts.len() {
                    match p_args(ts, p1 + 1, Seq::empty()) {
                        Err(l) => Err(l),
                        Ok((args, q)) => match expect_spec(ts, q, TokenView::RParen) {
                            Err(l) => Err(l),
                            Ok(q2) => Ok((ExprView::Call(name, args), q2)),
                        },
                    }
                } else {
                    Err(0)
                }
            } else {
                Ok((ExprView::Var(name), p1))
            },
            TokenView::LParen => if p1 > p {
                match p_assign(ts, p1) {
                    Err(l) => Err(l),
                    Ok((e, q)) => match expect_spec(ts, q, TokenView::RParen) {
                        Err(l) => Err(l),
                        Ok(q2) => Ok((e, q2)),
                    },
                }
            } else {
                Err(0)
            },
            _ => Err(ln(ts, p1)),
        }
    }
}

/// Call arguments from `p` up to the closing parenthesis, after `acc`.
pub open spec fn p_args(ts: Seq<(TokenView, int)>, p: int, acc: Seq<ExprView>) -> PResult<Seq<ExprView>>
    decreases ts.len() - p, 42int,
{
    if !(0 <= p < ts.len()) {
        Err(0)
    } else if tk(ts, p) == TokenView::RParen {
        Ok((acc, p))
    } else {
        match p_assign(ts, p) {
            Err(l) => Err(l),
            Ok((a, q)) => {
                let q2 = if 0 <= q < ts.len() && tk(ts, q) == TokenView::Comma { adv(ts, q) } else { q };
                if p < q2 < ts.len() {
                    p_args(ts, q2, acc.push(a))
                } else {
                    Err(0)
                }
            },
        }
    }
}

/// A statement at `p`.
pub open spec fn p_stmt(ts: Seq<(TokenView, int)>, p: int) -> PResult<StmtView>
    decreases ts.len() - p, 5int,
{
    if !(0 <= p < ts.len()) {
        Err(0)
    } else {
        let p1 = adv(ts, p);
        match tk(ts, p) {
            TokenView::Let => {
                let mutable = tk(ts, p1) == TokenView::Mut;
                let p2 = if mutable { adv(ts, p1) } else { p1 };
                let p3 = adv(ts, p2);
                match tk(ts, p2) {
                    TokenView::Ident(name) => {
                        let p4: std::result::Result<int, int> = if tk(ts, p3) == TokenView::Colon {
                            let a = adv(ts, p3);
                            let b = adv(ts, a);
                            if type_of(tk(ts, a)) is Some { Ok(b) } else { Err(ln(ts, b)) }
                        } else {
                            Ok(p3)
                        };
                        match p4 {
                            Err(l) => Err(l),
                            Ok(p4) => {
                                let init: PResult<Option<ExprView>> = if tk(ts, p4) == TokenView::Eq {
                                    match p_assign(ts, adv(ts, p4)) {
                                        Err(l) => Err(l),
                                        Ok((e, q)) => Ok((Some(e), q)),
                                    }
                                } else {
                                    Ok((None, p4))
                                };
                                match init {
                                    Err(l) => Err(l),
                                    Ok((init, q)) => match expect_spec(ts, q, TokenView::Semi) {
                                        Err(l) => Err(l),
                                        Ok(q2) => Ok((StmtView::Let { name, mutable, init }, q2)),
                                    },
                                }
                            },
                        }
                    },
                    _ => Err(ln(ts, p3)),
                }
            },
            TokenView::If => match p_assign(ts, p1) {
                Err(l) => Err(l),
                Ok((cond, q)) => match expect_spec(ts, q, TokenView::LBrace) {
                    Err(l) => Err(l),
                    Ok(q1) => if p < q1 < ts.len() {
                        match p_stmts(ts, q1, Seq::empty()) {
                            Err(l) => Err(l),
                            Ok((then_body, q2)) => match expect_spec(ts, q2, TokenView::RBrace) {
                                Err(l) => Err(l),
                                Ok(q3) => if tk(ts, q3) == TokenView::Else {
                                    match expect_spec(ts, adv(ts, q3), TokenView::LBrace) {
                                        Err(l) => Err(l),
                                        Ok(q5) => if p < q5 < ts.len() {
                                            match p_stmts(ts, q5, Seq::empty()) {
                                                Err(l) => Err(l),
                                                Ok((else_body, q6)) => match expect_spec(ts, q6, TokenView::RBrace) {
                                                    Err(l) => Err(l),
                                                    Ok(q7) => Ok((StmtView::If { cond, then_body, else_body }, q7)),
                                                },
                                            }
                                        } else {
                                            Err(0)
                                        },
                                    }
                                } else {
                                    Ok((StmtView::If { cond, then_body, else_body: Seq::empty() }, q3))
                                },
                            },
                        }
                    } else {
                        Err(0)
                    },
                },
            },
            TokenView::While => match p_assign(ts, p1) {
                Err(l) => Err(l),
                Ok((cond, q)) => match expect_spec(ts, q, TokenView::LBrace) {
                    Err(l) => Err(l),
                    Ok(q1) => if p < q1 < ts.len() {
                        match p_stmts(ts, q1, Seq::empty()) {
                            Err(l) => Err(l),
                            Ok((body, q2)) => match expect_spec(ts, q2, TokenView::RBrace) {
                                Err(l) => Err(l),
                                Ok(q3) => Ok((StmtView::While { cond, body }, q3)),
                            },
                        }
                    } else {
                        Err(0)
                    },
                },
            },
            TokenView::Loop => match expect_spec(ts, p1, TokenView::LBrace) {
                Err(l) => Err(l),
                Ok(q1) => if p < q1 < ts.len() {
                    match p_stmts(ts, q1, Seq::empty()) {
                        Err(l) => Err(l),
                        Ok((body, q2)) => match expect_spec(ts, q2, TokenView::RBrace) {
                            Err(l) => Err(l),
                            Ok(q3) => Ok((StmtView::Loop { body }, q3)),
                        },
                    }
                } else {
                    Err(0)
                },
            },
            TokenView::Return => {
                let v: PResult<Option<ExprView>> = if tk(ts, p1) != TokenView::Semi {
                    match p_assign(ts, p1) {
                        Err(l) => Err(l),
                        Ok((e, q)) => Ok((Some(e), q)),
                    }
                } else {
                    Ok((None, p1))
                };
                match v {
                    Err(l) => Err(l),
                    Ok((v, q)) => match expect_spec(ts, q, TokenView::Semi) {
                        Err(l) => Err(l),
                        Ok(q2) => Ok((StmtView::Return(v), q2)),
                    },
                }
            },
            _ => match p_assign(ts, p) {
                Err(l) => Err(l),
                Ok((e, q)) => match expect_spec(ts, q, TokenView::Semi) {
                    Err(l) => Err(l),
                    Ok(q2) => Ok((StmtView::Expr(e), q2)),
                },
            },
        }
    }
}

/// Statements from `p` up to a closing brace or the end, after `acc`.
pub open spec fn p_stmts(ts: Seq<(TokenView, int)>, p: int, acc: Seq<StmtView>) -> PResult<Seq<StmtView>>
    decreases ts.len() - p, 6int,
{
    if !(0 <= p < ts.len()) {
        Err(0)
    } else if tk(ts, p) == TokenView::RBrace || tk(ts, p) == TokenView::Eof {
        Ok((acc, p))
    } else {
        match p_stmt(ts, p) {
            Err(l) => Err(l),
            Ok((s, q)) => if p < q < ts.len() { p_stmts(ts, q, acc.push(s)) } else { Err(0) },
        }
    }
}

/// Parameters from `p` up to the closing parenthesis, after `acc`.
pub open spec fn p_params(ts: Seq<(TokenView, int)>, p: int, acc: Seq<(Seq<char>, Type)>) -> PResult<Seq<(Seq<char>, Type)>>
    decreases ts.len() - p,
{
    if !(0 <= p < ts.len()) {
        Err(0)
    } else if tk(ts, p) == TokenView::RParen {
        Ok((acc, p))
    } else {
        let p1 = if tk(ts, p) == TokenView::Mut { adv(ts, p) } else { p };
        let p2 = adv(ts, p1);
        match tk(ts, p1) {
            TokenView::Ident(name) => match expect_spec(ts, p2, TokenView::Colon) {
                Err(l) => Err(l),
                Ok(p3) => {
                    let p4 = adv(ts, p3);
                    match type_of(tk(ts, p3)) {
                        None => Err(ln(ts, p4)),
                        Some(ty) => {
                            let p5 = if tk(ts, p4) == TokenView::Comma { adv(ts, p4) } else { p4 };
                            if p < p5 < ts.len() { p_params(ts, p5, acc.push((name, ty))) } else { Err(0) }
                        },
                    }
                },
            },
            _ => Err(ln(ts, p2)),
        }
    }
}

/// A function definition at `p`.
pub open spec fn p_fn(ts: Seq<(TokenView, int)>, p: int) -> PResult<FunctionView> {
    if !(0 <= p < ts.len()) {
        Err(0)
    } else {
        match expect_spec(ts, p, TokenView::Fn) {
            Err(l) => Err(l),
            Ok(q1) => {
                let q2 = adv(ts, q1);
                match tk(ts, q1) {
                    TokenView::Ident(name) => match expect_spec(ts, q2, TokenView::LParen) {
                        Err(l) => Err(l),
                        Ok(q3) => match p_params(ts, q3, Seq::empty()) {
                            Err(l) => Err(l),
                            Ok((params, q4)) => match expect_spec(ts, q4, TokenView::RParen) {
                                Err(l) => Err(l),
                                Ok(q5) => {
                                    let ret: PResult<Option<Type>> = if tk(ts, q5) == TokenView::Arrow {
                                        let a = adv(ts, q5);
                                        let b = adv(ts, a);
                                        match type_of(tk(ts, a)) {
                                            Some(t) => Ok((Some(t), b)),
                                            None => Err(ln(ts, b)),
                                        }
                                    } else {
                                        Ok((None, q5))
                                    };
                                    match ret {
                                        Err(l) => Err(l),
                                        Ok((ret_type, q6)) => match expect_spec(ts, q6, TokenView::LBrace) {
                                            Err(l) => Err(l),
                                            Ok(q7) => match p_stmts(ts, q7, Seq::empty()) {
                                                Err(l) => Err(l),
                                                Ok((body, q8)) => match expect_spec(ts, q8, TokenView::RBrace) {
                                                    Err(l) => Err(l),
                                                    Ok(q9) => Ok((FunctionView { name, params, ret_type, body }, q9)),
                                                },
                                            },
                                        },
                                    }
                                },
                            },
                        },
                    },
                    _ => Err(ln(ts, q2)),
                }
            },
        }
    }
}

/// Function definitions from `p` up to `Eof`, after `acc`.
pub open spec fn p_program(ts: Seq<(TokenView, int)>, p: int, acc: Seq<FunctionView>) -> std::result::Result<Seq<FunctionView>, int>
    decreases ts.len() - p,
{
    if !(0 <= p < ts.len()) {
        Err(0)
    } else if tk(ts, p) == TokenView::Eof {
        Ok(acc)
    } else {
        match p_fn(ts, p) {
            Err(l) => Err(l),
            Ok((f, q)) => if p < q < ts.len() { p_program(ts, q, acc.push(f)) } else { Err(0) },
        }
    }
}

/// A token list the parser accepts: not empty, ending with `Eof`.
pub open spec fn eof_terminated(ts: Seq<(TokenView, int)>) -> bool {
    ts.len() > 0 && ts.last().0 == TokenView::Eof
}


/// The position of a token's kind in the token list of the language.
pub open spec fn kind_index(t: TokenView) -> int {
    match t {
        TokenView::Fn => 0,
        TokenView::Let => 1,
        TokenView::Mut => 2,
        TokenView::If => 3,
        TokenView::Else => 4,
        TokenView::While => 5,
        TokenView::Loop => 6,
        TokenView::Return => 7,
        TokenView::Break => 8,
        TokenView::Continue => 9,
        TokenView::U32 => 10,
        TokenView::I32 => 11,
        TokenView::Bool => 12,
        TokenView::True => 13,
        TokenView::False => 14,
        TokenView::AmpAmp => 15,
        TokenView::PipePipe => 16,
        TokenView::EqEq => 17,
        TokenView::BangEq => 18,
        TokenView::LtEq => 19,
        TokenView::GtEq => 20,
        TokenView::Arrow => 21,
        TokenView::Plus => 22,
        TokenView::Minus => 23,
        TokenView::Star => 24,
        TokenView::Slash => 25,
        TokenView::Percent => 26,
        TokenView::Amp => 27,
        TokenView::Pipe => 28,
        TokenView::Caret => 29,
        TokenView::Bang => 30,
        TokenView::Eq => 31,
        TokenView::Lt => 32,
        TokenView::Gt => 33,
        TokenView::LParen => 34,
        TokenView::RParen => 35,
        TokenView::LBrace => 36,
        TokenView::RBrace => 37,
        TokenView::Comma => 38,
        TokenView::Semi => 39,
        TokenView::Colon => 40,
        TokenView::Eof => 41,
        TokenView::IntLit(_) => 42,
        TokenView::Ident(_) => 43,
    }
}

fn kind_of(t: &Token) -> (k: u8)
    ensures
        k == kind_index(t@),
{
    match t {
        Token::Fn => 0,
        Token::Let => 1,
        Token::Mut => 2,
        Token::If => 3,
        Token::Else => 4,
        Token::While => 5,
        Token::Loop => 6,
        Token::Return => 7,
        Token::Break => 8,
        Token::Continue => 9,
        Token::U32 => 10,
        Token::I32 => 11,
        Token::Bool => 12,
        Token::True => 13,
        Token::False => 14,
        Token::AmpAmp => 15,
        Token::PipePipe => 16,
        Token::EqEq => 17,
        Token::BangEq => 18,
        Token::LtEq => 19,
        Token::GtEq => 20,
        Token::Arrow => 21,
        Token::Plus => 22,
        Token::Minus => 23,
        Token::Star => 24,
        Token::Slash => 25,
        Token::Percent => 26,
        Token::Amp => 27,
        Token::Pipe => 28,
        Token::Caret => 29,
        Token::Bang => 30,
        Token::Eq => 31,
        Token::Lt => 32,
        Token::Gt => 33,
        Token::LParen => 34,
        Token::RParen => 35,
        Token::LBrace => 36,
        Token::RBrace => 37,
        Token::Comma => 38,
        Token::Semi => 39,
        Token::Colon => 40,
        Token::Eof => 41,
        Token::IntLit(_) => 42,
        Token::Ident(_) => 43,
    }
}

/// Whether two tokens are the same.
fn same_token(a: &Token, b: &Token) -> (r: bool)
    ensures
        r == (a@ == b@),
{
    match (a, b) {
        (Token::IntLit(x), Token::IntLit(y)) => *x == *y,
        (Token::Ident(x), Token::Ident(y)) => string_is(x, y.as_str()),
        _ => kind_of(a) == kind_of(b) && kind_of(a) < 42,
    }
}

/// The name of a token's kind, as messages show it.
pub open spec fn kind_name(t: TokenView) -> Seq<char> {
    match t {
        TokenView::Fn => "Fn"@,
        TokenView::Let => "Let"@,
        TokenView::Mut => "Mut"@,
        TokenView::If => "If"@,
        TokenView::Else => "Else"@,
        TokenView::While => "While"@,
        TokenView::Loop => "Loop"@,
        TokenView::Return => "Return"@,
        TokenView::Break => "Break"@,
        TokenView::Continue => "Continue"@,
        TokenView::U32 => "U32"@,
        TokenView::I32 => "I32"@,
        TokenView::Bool => "Bool"@,
        TokenView::True => "True"@,
        TokenView::False => "False"@,
        TokenView::AmpAmp => "AmpAmp"@,
        TokenView::PipePipe => "PipePipe"@,
        TokenView::EqEq => "EqEq"@,
        TokenView::BangEq => "BangEq"@,
        TokenView::LtEq => "LtEq"@,
        TokenView::GtEq => "GtEq"@,
        TokenView::Arrow => "Arrow"@,
        TokenView::Plus => "Plus"@,
        TokenView::Minus => "Minus"@,
        TokenView::Star => "Star"@,
        TokenView::Slash => "Slash"@,
        TokenView::Percent => "Percent"@,
        TokenView::Amp => "Amp"@,
        TokenView::Pipe => "Pipe"@,
        TokenView::Caret => "Caret"@,
        TokenView::Bang => "Bang"@,
        TokenView::Eq => "Eq"@,
        TokenView::Lt => "Lt"@,
        TokenView::Gt => "Gt"@,
        TokenView::LParen => "LParen"@,
        TokenView::RParen => "RParen"@,
        TokenView::LBrace => "LBrace"@,
        TokenView::RBrace => "RBrace"@,
        TokenView::Comma => "Comma"@,
        TokenView::Semi => "Semi"@,
        TokenView::Colon => "Colon"@,
        TokenView::Eof => "Eof"@,
        TokenView::IntLit(_) => "IntLit"@,
        TokenView::Ident(_) => "Ident"@,
    }
}

/// The name of a token's kind, for messages.
fn token_name(t: &Token) -> (s: &'static str)
    ensures
        s@ == kind_name(t@),
{
    match t {
        Token::Fn => "Fn",
        Token::Let => "Let",
        Token::Mut => "Mut",
        Token::If => "If",
        Token::Else => "Else",
        Token::While => "While",
        Token::Loop => "Loop",
        Token::Return => "Return",
        Token::Break => "Break",
        Token::Continue => "Continue",
        Token::U32 => "U32",
        Token::I32 => "I32",
        Token::Bool => "Bool",
        Token::True => "True",
        Token::False => "False",
        Token::AmpAmp => "AmpAmp",
        Token::PipePipe => "PipePipe",
        Token::EqEq => "EqEq",
        Token::BangEq => "BangEq",
        Token::LtEq => "LtEq",
        Token::GtEq => "GtEq",
        Token::Arrow => "Arrow",
        Token::Plus => "Plus",
        Token::Minus => "Minus",
        Token::Star => "Star",
        Token::Slash => "Slash",
        Token::Percent => "Percent",
        Token::Amp => "Amp",
        Token::Pipe => "Pipe",
        Token::Caret => "Caret",
        Token::Bang => "Bang",
        Token::Eq => "Eq",
        Token::Lt => "Lt",
        Token::Gt => "Gt",
        Token::LParen => "LParen",
        Token::RParen => "RParen",
        Token::LBrace => "LBrace",
        Token::RBrace => "RBrace",
        Token::Comma => "Comma",
        Token::Semi => "Semi",
        Token::Colon => "Colon",
        Token::Eof => "Eof",
        Token::IntLit(_) => "IntLit",
        Token::Ident(_) => "Ident",
    }
}

pub struct Parser {
    tokens: Vec<(Token, usize)>,
    pos: usize,
}

fn parse_error(line: usize, msg: String) -> (e: CompileError)
    ensures
        e matches CompileError::Parse { line: l, .. } && l == line,
{
    CompileError::Parse { line, msg }
}

/// The type `t` names, if any.
fn type_token(t: &Token) -> (r: Option<Type>)
    ensures
        r == type_of(t@),
{
    match t {
        Token::U32 => Some(Type::U32),
        Token::I32 => Some(Type::I32),
        Token::Bool => Some(Type::Bool),
        _ => None,
    }
}

/// The operator of precedence level `k` that `t` stands for, if any.
fn level_token(k: u8, t: &Token) -> (r: Option<BinOp>)
    ensures
        r == level_op(k as int, t@),
{
    match (k, t) {
        (0, Token::PipePipe) => Some(BinOp::Or),
        (1, Token::AmpAmp) => Some(BinOp::And),
        (2, Token::EqEq) => Some(BinOp::Eq),
        (2, Token::BangEq) => Some(BinOp::Ne),
        (2, Token::Lt) => Some(BinOp::Lt),
        (2, Token::Gt) => Some(BinOp::Gt),
        (2, Token::LtEq) => Some(BinOp::Le),
        (2, Token::GtEq) => Some(BinOp::Ge),
        (3, Token::Pipe) => Some(BinOp::BitOr),
        (4, Token::Caret) => Some(BinOp::BitXor),
        (5, Token::Amp) => Some(BinOp::BitAnd),
        (6, Token::Plus) => Some(BinOp::Add),
        (6, Token::Minus) => Some(BinOp::Sub),
        (7, Token::Star) => Some(BinOp::Mul),
        (7, Token::Slash) => Some(BinOp::Div),
        (7, Token::Percent) => Some(BinOp::Mod),
        _ => None,
    }
}

proof fn lemma_exprs_push(es: Seq<Expr>, e: Expr)
    ensures
        exprs_view(es.push(e)) == exprs_view(es).push(e@),
{
    assert(es.push(e).subrange(0, es.len() as int) =~= es);
}

proof fn lemma_stmts_push(ss: Seq<Stmt>, s: Stmt)
    ensures
        stmts_view(ss.push(s)) == stmts_view(ss).push(s@),
{
    assert(ss.push(s).subrange(0, ss.len() as int) =~= ss);
}

impl Parser {
    /// The tokens with their lines.
    pub closed spec fn tokens_view(&self) -> Seq<(TokenView, int)> {
        token_lines_view(self.tokens@)
    }

    /// The current position.
    pub closed spec fn pos_view(&self) -> int {
        self.pos as int
    }

    /// The tokens end with `Eof` and the position is on a token.
    pub open spec fn wf(&self) -> bool {
        eof_terminated(self.tokens_view()) && 0 <= self.pos_view() < self.tokens_view().len()
    }

    pub fn new(tokens: Vec<(Token, usize)>) -> (p: Self)
        ensures
            p.tokens_view() == token_lines_view(tokens@),
            p.pos_view() == 0,
    {
        Parser { tokens, pos: 0 }
    }

    fn peek(&self) -> (t: &Token)
        requires
            self.wf(),
        ensures
            t@ == tk(self.tokens_view(), self.pos_view()),
    {
        &self.tokens[self.pos].0
    }

    fn line(&self) -> (l: usize)
        requires
            self.wf(),
        ensures
            l == ln(self.tokens_view(), self.pos_view()),
    {
        self.tokens[self.pos].1
    }

    fn peek_is(&self, want: &Token) -> (b: bool)
        requires
            self.wf(),
        ensures
            b == (tk(self.tokens_view(), self.pos_view()) == want@),
    {
        same_token(self.peek(), want)
    }

    fn eat(&mut self)
        requires
            old(self).wf(),
        ensures
            final(self).wf(),
            final(self).tokens_view() == old(self).tokens_view(),
            final(self).pos_view() == adv(old(self).tokens_view(), old(self).pos_view()),
    {
        if self.tokens.len() - self.pos > 1 {
            self.pos += 1;
        }
    }

    /// A token other than `Eof` is not the last one, so eating it advances.
    proof fn lemma_eat_advances(&self)
        requires
            self.wf(),
            tk(self.tokens_view(), self.pos_view()) != TokenView::Eof,
        ensures
            adv(self.tokens_view(), self.pos_view()) == self.pos_view() + 1,
    {
    }

    fn expect(&mut self, want: &Token) -> (r: Result<()>)
        requires
            old(self).wf(),
        ensures
            final(self).wf(),
            final(self).tokens_view() == old(self).tokens_view(),
            match expect_spec(old(self).tokens_view(), old(self).pos_view(), want@) {
                Ok(q) => r is Ok && final(self).pos_view() == q,
                Err(l) => r matches Err(CompileError::Parse { line: e, .. }) && e == l,
            },
    {
        if self.peek_is(want) {
            self.eat();
            Ok(())
        } else {
            let msg = concat3("expected ", token_name(want), ", got ");
            let msg = concat3(msg.as_str(), token_name(self.peek()), "");
            Err(parse_error(self.line(), msg))
        }
    }

    fn parse_assign(&mut self) -> (r: Result<Expr>)
        requires
            old(self).wf(),
        ensures
            final(self).wf(),
            final(self).tokens_view() == old(self).tokens_view(),
            match p_assign(old(self).tokens_view(), old(self).pos_view()) {
                Ok((v, q)) => r is Ok && r->Ok_0@ == v && final(self).pos_view() == q && q > old(self).pos_view(),
                Err(l) => r matches Err(CompileError::Parse { line: e, .. }) && e == l,
            },
        decreases old(self).tokens@.len() - old(self).pos, 40int,
    {
        let lhs = self.parse_level(0)?;
        if self.peek_is(&Token::Eq) {
            proof {
                self.lemma_eat_advances();
            }
            self.eat();
            let rhs = self.parse_assign()?;
            match lhs {
                Expr::Var(name) => Ok(Expr::Assign(name, Box::new(rhs))),
                _ => Err(parse_error(self.line(), "lhs of = must be a variable".to_owned())),
            }
        } else {
            Ok(lhs)
        }
    }

    fn parse_level(&mut self, k: u8) -> (r: Result<Expr>)
        requires
            old(self).wf(),
            k <= 7,
        ensures
            final(self).wf(),
            final(self).tokens_view() == old(self).tokens_view(),
            match p_level(old(self).tokens_view(), old(self).pos_view(), k as int) {
                Ok((v, q)) => r is Ok && r->Ok_0@ == v && final(self).pos_view() == q && q > old(self).pos_view(),
                Err(l) => r matches Err(CompileError::Parse { line: e, .. }) && e == l,
            },
        decreases old(self).tokens@.len() - old(self).pos, 30 - 2 * k,
    {
        let first = if k == 7 { self.parse_unary()? } else { self.parse_level(k + 1)? };
        self.parse_rest(first, k)
    }

    fn parse_rest(&mut self, e: Expr, k: u8) -> (r: Result<Expr>)
        requires
            old(self).wf(),
            k <= 7,
        ensures
            final(self).wf(),
            final(self).tokens_view() == old(self).tokens_view(),
            match p_rest(old(self).tokens_view(), e@, old(self).pos_view(), k as int) {
                Ok((v, q)) => r is Ok && r->Ok_0@ == v && final(self).pos_view() == q && q >= old(self).pos_view(),
                Err(l) => r matches Err(CompileError::Parse { line: e, .. }) && e == l,
            },
        decreases old(self).tokens@.len() - old(self).pos, 29 - 2 * k,
    {
        match level_token(k, self.peek()) {
            None => Ok(e),
            Some(op) => {
                proof {
                    self.lemma_eat_advances();
                }
                self.eat();
                let r = if k == 7 { self.parse_unary()? } else { self.parse_level(k + 1)? };
                self.parse_rest(Expr::BinOp(Box::new(e), op, Box::new(r)), k)
            },
        }
    }

    fn parse_unary(&mut self) -> (r: Result<Expr>)
        requires
            old(self).wf(),
        ensures
            final(self).wf(),
            final(self).tokens_view() == old(self).tokens_view(),
            match p_unary(old(self).tokens_view(), old(self).pos_view()) {
                Ok((v, q)) => r is Ok && r->Ok_0@ == v && final(self).pos_view() == q && q > old(self).pos_view(),
                Err(l) => r matches Err(CompileError::Parse { line: e, .. }) && e == l,
            },
        decreases old(self).tokens@.len() - old(self).pos, 10int,
    {
        let neg = self.peek_is(&Token::Minus);
        if neg || self.peek_is(&Token::Bang) {
            proof {
                self.lemma_eat_advances();
            }
            self.eat();
            let x = self.parse_unary()?;
            Ok(Expr::UnOp(if neg { UnOp::Neg } else { UnOp::Not }, Box::new(x)))
        } else {
            self.parse_primary()
        }
    }

    fn parse_primary(&mut self) -> (r: Result<Expr>)
        requires
            old(self).wf(),
        ensures
            final(self).wf(),
            final(self).tokens_view() == old(self).tokens_view(),
            match p_primary(old(self).tokens_view(), old(self).pos_view()) {
                Ok((v, q)) => r is Ok && r->Ok_0@ == v && final(self).pos_view() == q && q > old(self).pos_view(),
                Err(l) => r matches Err(CompileError::Parse { line: e, .. }) && e == l,
            },
        decreases old(self).tokens@.len() - old(self).pos, 8int,
    {
        match self.peek() {
            Token::IntLit(n) => {
                let v = *n;
                proof {
                    self.lemma_eat_advances();
                }
                self.eat();
                Ok(Expr::Lit(v))
            },
            Token::True => {
                proof {
                    self.lemma_eat_advances();
                }
                self.eat();
                Ok(Expr::Lit(1))
            },
            Token::False => {
                proof {
                    self.lemma_eat_advances();
                }
                self.eat();
                Ok(Expr::Lit(0))
            },
            Token::Ident(name) => {
                let name = name.clone();
                proof {
                    self.lemma_eat_advances();
                }
                self.eat();
                if self.peek_is(&Token::LParen) {
                    proof {
                        self.lemma_eat_advances();
                    }
                    self.eat();
                    let args = self.parse_args(Vec::new())?;
                    self.expect(&Token::RParen)?;
                    Ok(Expr::Call(name, args))
                } else {
                    Ok(Expr::Var(name))
                }
            },
            Token::LParen => {
                proof {
                    self.lemma_eat_advances();
                }
                self.eat();
                let e = self.parse_assign()?;
                self.expect(&Token::RParen)?;
                Ok(e)
            },
            _ => {
                let msg = concat3("unexpected token ", token_name(self.peek()), "");
                self.eat();
                Err(parse_error(self.line(), msg))
            },
        }
    }

    fn parse_args(&mut self, acc: Vec<Expr>) -> (r: Result<Vec<Expr>>)
        requires
            old(self).wf(),
        ensures
            final(self).wf(),
            final(self).tokens_view() == old(self).tokens_view(),
            match p_args(old(self).tokens_view(), old(self).pos_view(), exprs_view(acc@)) {
                Ok((v, q)) => r is Ok && exprs_view(r->Ok_0@) == v && final(self).pos_view() == q && q >= old(self).pos_view(),
                Err(l) => r matches Err(CompileError::Parse { line: e, .. }) && e == l,
            },
        decreases old(self).tokens@.len() - old(self).pos, 42int,
    {
        if self.peek_is(&Token::RParen) {
            return Ok(acc);
        }
        let a = self.parse_assign()?;
        if self.peek_is(&Token::Comma) {
            self.eat();
        }
        let mut acc = acc;
        proof {
            lemma_exprs_push(acc@, a);
        }
        acc.push(a);
        self.parse_args(acc)
    }

    fn parse_type(&mut self) -> (r: Result<Type>)
        requires
            old(self).wf(),
        ensures
            final(self).wf(),
            final(self).tokens_view() == old(self).tokens_view(),
            final(self).pos_view() == adv(old(self).tokens_view(), old(self).pos_view()),
            match type_of(tk(old(self).tokens_view(), old(self).pos_view())) {
                Some(t) => r == Ok::<Type, CompileError>(t),
                None => r matches Err(CompileError::Parse { line: e, .. }) && e == ln(
                    old(self).tokens_view(),
                    final(self).pos_view(),
                ),
            },
    {
        let t = type_token(self.peek());
        let name = token_name(self.peek());
        self.eat();
        match t {
            Some(ty) => Ok(ty),
            None => Err(parse_error(self.line(), concat3("expected type, got ", name, ""))),
        }
    }

    fn parse_ident(&mut self) -> (r: Result<String>)
        requires
            old(self).wf(),
        ensures
            final(self).wf(),
            final(self).tokens_view() == old(self).tokens_view(),
            final(self).pos_view() == adv(old(self).tokens_view(), old(self).pos_view()),
            match tk(old(self).tokens_view(), old(self).pos_view()) {
                TokenView::Ident(name) => r is Ok && r->Ok_0@ == name,
                _ => r matches Err(CompileError::Parse { line: e, .. }) && e == ln(
                    old(self).tokens_view(),
                    final(self).pos_view(),
                ),
            },
    {
        let found = match self.peek() {
            Token::Ident(s) => Some(s.clone()),
            _ => None,
        };
        let name = token_name(self.peek());
        self.eat();
        match found {
            Some(s) => Ok(s),
            None => Err(parse_error(self.line(), concat3("expected identifier, got ", name, ""))),
        }
    }

    fn parse_stmt(&mut self) -> (r: Result<Stmt>)
        requires
            old(self).wf(),
        ensures
            final(self).wf(),
            final(self).tokens_view() == old(self).tokens_view(),
            match p_stmt(old(self).tokens_view(), old(self).pos_view()) {
                Ok((v, q)) => r is Ok && r->Ok_0@ == v && final(self).pos_view() == q && q > old(self).pos_view(),
                Err(l) => r matches Err(CompileError::Parse { line: e, .. }) && e == l,
            },
        decreases old(self).tokens@.len() - old(self).pos, 5int,
    {
        if self.peek_is(&Token::Let) {
            proof {
                self.lemma_eat_advances();
            }
            self.eat();
            let mutable = self.peek_is(&Token::Mut);
            if mutable {
                self.eat();
            }
            let name = self.parse_ident()?;
            if self.peek_is(&Token::Colon) {
                self.eat();
                self.parse_type()?;
            }
            let init = if self.peek_is(&Token::Eq) {
                self.eat();
                Some(self.parse_assign()?)
            } else {
                None
            };
            self.expect(&Token::Semi)?;
            Ok(Stmt::Let { name, _mutable: mutable, init })
        } else if self.peek_is(&Token::If) {
            proof {
                self.lemma_eat_advances();
            }
            self.eat();
            let cond = self.parse_assign()?;
            self.expect(&Token::LBrace)?;
            let then_body = self.parse_stmts(Vec::new())?;
            self.expect(&Token::RBrace)?;
            let else_body = if self.peek_is(&Token::Else) {
                self.eat();
                self.expect(&Token::LBrace)?;
                let b = self.parse_stmts(Vec::new())?;
                self.expect(&Token::RBrace)?;
                b
            } else {
                Vec::new()
            };
            proof {
                assert(stmts_view(Seq::<Stmt>::empty()) =~= Seq::<StmtView>::empty());
            }
            Ok(Stmt::If { cond, then_body, else_body })
        } else if self.peek_is(&Token::While) {
            proof {
                self.lemma_eat_advances();
            }
            self.eat();
            let cond = self.parse_assign()?;
            self.expect(&Token::LBrace)?;
            let body = self.parse_stmts(Vec::new())?;
            self.expect(&Token::RBrace)?;
            Ok(Stmt::While { cond, body })
        } else if self.peek_is(&Token::Loop) {
            proof {
                self.lemma_eat_advances();
            }
            self.eat();
            self.expect(&Token::LBrace)?;
            let body = self.parse_stmts(Vec::new())?;
            self.expect(&Token::RBrace)?;
            Ok(Stmt::Loop { body })
        } else if self.peek_is(&Token::Return) {
            proof {
                self.lemma_eat_advances();
            }
            self.eat();
            let v = if !self.peek_is(&Token::Semi) {
                Some(self.parse_assign()?)
            } else {
                None
            };
            self.expect(&Token::Semi)?;
            Ok(Stmt::Return(v))
        } else {
            let e = self.parse_assign()?;
            self.expect(&Token::Semi)?;
            Ok(Stmt::Expr(e))
        }
    }

    fn parse_stmts(&mut self, acc: Vec<Stmt>) -> (r: Result<Vec<Stmt>>)
        requires
            old(self).wf(),
        ensures
            final(self).wf(),
            final(self).tokens_view() == old(self).tokens_view(),
            match p_stmts(old(self).tokens_view(), old(self).pos_view(), stmts_view(acc@)) {
                Ok((v, q)) => r is Ok && stmts_view(r->Ok_0@) == v && final(self).pos_view() == q && q >= old(self).pos_view(),
                Err(l) => r matches Err(CompileError::Parse { line: e, .. }) && e == l,
            },
        decreases old(self).tokens@.len() - old(self).pos, 6int,
    {
        if self.peek_is(&Token::RBrace) || self.peek_is(&Token::Eof) {
            return Ok(acc);
        }
        let s = self.parse_stmt()?;
        let mut acc = acc;
        proof {
            lemma_stmts_push(acc@, s);
        }
        acc.push(s);
        self.parse_stmts(acc)
    }

    fn parse_params(&mut self, acc: Vec<Param>) -> (r: Result<Vec<Param>>)
        requires
            old(self).wf(),
        ensures
            final(self).wf(),
            final(self).tokens_view() == old(self).tokens_view(),
            match p_params(old(self).tokens_view(), old(self).pos_view(), params_view(acc@)) {
                Ok((v, q)) => r is Ok && params_view(r->Ok_0@) == v && final(self).pos_view() == q && q >= old(self).pos_view(),
                Err(l) => r matches Err(CompileError::Parse { line: e, .. }) && e == l,
            },
        decreases old(self).tokens@.len() - old(self).pos,
    {
        if self.peek_is(&Token::RParen) {
            return Ok(acc);
        }
        let ghost p = self.pos_view();
        if self.peek_is(&Token::Mut) {
            proof {
                self.lemma_eat_advances();
            }
            self.eat();
        }
        let pname = self.parse_ident()?;
        self.expect(&Token::Colon)?;
        let ty = self.parse_type()?;
        if self.peek_is(&Token::Comma) {
            self.eat();
        }
        let mut acc = acc;
        let param = Param { name: pname, ty };
        proof {
            assert(params_view(acc@.push(param)) =~= params_view(acc@).push((param.name@, ty)));
        }
        acc.push(param);
        self.parse_params(acc)
    }

    fn parse_fn(&mut self) -> (r: Result<Function>)
        requires
            old(self).wf(),
        ensures
            final(self).wf(),
            final(self).tokens_view() == old(self).tokens_view(),
            match p_fn(old(self).tokens_view(), old(self).pos_view()) {
                Ok((v, q)) => r is Ok && r->Ok_0@ == v && final(self).pos_view() == q && q > old(self).pos_view(),
                Err(l) => r matches Err(CompileError::Parse { line: e, .. }) && e == l,
            },
    {
        proof {
            assert(params_view(Seq::<Param>::empty()) =~= Seq::<(Seq<char>, Type)>::empty());
            assert(stmts_view(Seq::<Stmt>::empty()) =~= Seq::<StmtView>::empty());
        }
        self.expect(&Token::Fn)?;
        let name = self.parse_ident()?;
        self.expect(&Token::LParen)?;
        let params = self.parse_params(Vec::new())?;
        self.expect(&Token::RParen)?;
        let ret_type = if self.peek_is(&Token::Arrow) {
            self.eat();
            Some(self.parse_type()?)
        } else {
            None
        };
        self.expect(&Token::LBrace)?;
        let body = self.parse_stmts(Vec::new())?;
        self.expect(&Token::RBrace)?;
        Ok(Function { name, params, ret_type, body })
    }

    fn parse_functions(&mut self, acc: Vec<Function>) -> (r: Result<Vec<Function>>)
        requires
            old(self).wf(),
        ensures
            match p_program(old(self).tokens_view(), old(self).pos_view(), functions_view(acc@)) {
                Ok(v) => r is Ok && functions_view(r->Ok_0@) == v,
                Err(l) => r matches Err(CompileError::Parse { line: e, .. }) && e == l,
            },
        decreases old(self).tokens@.len() - old(self).pos,
    {
        if self.peek_is(&Token::Eof) {
            return Ok(acc);
        }
        let f = self.parse_fn()?;
        let mut acc = acc;
        proof {
            assert(functions_view(acc@.push(f)) =~= functions_view(acc@).push(f@));
        }
        acc.push(f);
        self.parse_functions(acc)
    }

    /// Parse a whole program: function definitions up to `Eof`.
    pub fn parse_program(&mut self) -> (r: Result<Program>)
        requires
            old(self).wf(),
        ensures
            match p_program(old(self).tokens_view(), old(self).pos_view(), Seq::empty()) {
                Ok(v) => r is Ok && r->Ok_0@ == v,
                Err(l) => r matches Err(CompileError::Parse { line: e, .. }) && e == l,
            },
    {
        proof {
            assert(functions_view(Seq::<Function>::empty()) =~= Seq::<FunctionView>::empty());
        }
        let functions = self.parse_functions(Vec::new())?;
        Ok(Program { functions })
    }
}

} // verus!
