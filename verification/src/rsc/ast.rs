//! Abstract syntax of the small Rust-like source language.
use vstd::prelude::*;

verus! {

#[derive(Debug, Clone, Copy, PartialEq, Eq, Structural)]
pub enum Type {
    U32,
    I32,
    Bool,
}

#[derive(Debug, Clone, Copy, PartialEq, Eq, Structural)]
pub enum BinOp {
    Add,
    Sub,
    Mul,
    Div,
    Mod,
    BitAnd,
    BitOr,
    BitXor,
    And,
    Or,
    Eq,
    Ne,
    Lt,
    Gt,
    Le,
    Ge,
}

#[derive(Debug, Clone, Copy, PartialEq, Eq, Structural)]
pub enum UnOp {
    Neg,
    Not,
}

#[derive(Debug)]
pub enum Expr {
    Lit(u32),
    Var(String),
    BinOp(Box<Expr>, BinOp, Box<Expr>),
    UnOp(UnOp, Box<Expr>),
    Call(String, Vec<Expr>),
    Assign(String, Box<Expr>),
}

#[derive(Debug)]
pub enum Stmt {
    Let { name: String, _mutable: bool, init: Option<Expr> },
    Expr(Expr),
    If { cond: Expr, then_body: Vec<Stmt>, else_body: Vec<Stmt> },
    While { cond: Expr, body: Vec<Stmt> },
    Loop { body: Vec<Stmt> },
    Return(Option<Expr>),
}

#[derive(Debug, Clone)]
pub struct Param {
    pub name: String,
    pub ty: Type,
}

#[derive(Debug)]
pub struct Function {
    pub name: String,
    pub params: Vec<Param>,
    pub ret_type: Option<Type>,
    pub body: Vec<Stmt>,
}

#[derive(Debug)]
pub struct Program {
    pub functions: Vec<Function>,
}

/// An expression with its names as character sequences.
pub enum ExprView {
    Lit(u32),
    Var(Seq<char>),
    BinOp(Box<ExprView>, BinOp, Box<ExprView>),
    UnOp(UnOp, Box<ExprView>),
    Call(Seq<char>, Seq<ExprView>),
    Assign(Seq<char>, Box<ExprView>),
}

pub enum StmtView {
    Let { name: Seq<char>, mutable: bool, init: Option<ExprView> },
    Expr(ExprView),
    If { cond: ExprView, then_body: Seq<StmtView>, else_body: Seq<StmtView> },
    While { cond: ExprView, body: Seq<StmtView> },
    Loop { body: Seq<StmtView> },
    Return(Option<ExprView>),
}

pub struct FunctionView {
    pub name: Seq<char>,
    pub params: Seq<(Seq<char>, Type)>,
    pub ret_type: Option<Type>,
    pub body: Seq<StmtView>,
}

pub open spec fn expr_view(e: Expr) -> ExprView
    decreases e,
{
    match e {
        Expr::Lit(n) => ExprView::Lit(n),
        Expr::Var(s) => ExprView::Var(s@),
        Expr::BinOp(l, op, r) => ExprView::BinOp(Box::new(expr_view(*l)), op, Box::new(expr_view(*r))),
        Expr::UnOp(op, x) => ExprView::UnOp(op, Box::new(expr_view(*x))),
        Expr::Call(s, args) => ExprView::Call(s@, exprs_view(args@)),
        Expr::Assign(s, x) => ExprView::Assign(s@, Box::new(expr_view(*x))),
    }
}

pub open spec fn exprs_view(es: Seq<Expr>) -> Seq<ExprView>
    decreases es,
{
    if es.len() == 0 {
        Seq::empty()
    } else {
        exprs_view(es.subrange(0, es.len() - 1)).push(expr_view(es[es.len() - 1]))
    }
}

pub open spec fn opt_expr_view(e: Option<Expr>) -> Option<ExprView> {
    match e {
        Some(x) => Some(expr_view(x)),
        None => None,
    }
}

pub open spec fn stmt_view(s: Stmt) -> StmtView
    decreases s,
{
    match s {
        Stmt::Let { name, _mutable, init } => StmtView::Let {
            name: name@,
            mutable: _mutable,
            init: opt_expr_view(init),
        },
        Stmt::Expr(e) => StmtView::Expr(expr_view(e)),
        Stmt::If { cond, then_body, else_body } => StmtView::If {
            cond: expr_view(cond),
            then_body: stmts_view(then_body@),
            else_body: stmts_view(else_body@),
        },
        Stmt::While { cond, body } => StmtView::While { cond: expr_view(cond), body: stmts_view(body@) },
        Stmt::Loop { body } => StmtView::Loop { body: stmts_view(body@) },
        Stmt::Return(e) => StmtView::Return(opt_expr_view(e)),
    }
}

pub open spec fn stmts_view(ss: Seq<Stmt>) -> Seq<StmtView>
    decreases ss,
{
    if ss.len() == 0 {
        Seq::empty()
    } else {
        stmts_view(ss.subrange(0, ss.len() - 1)).push(stmt_view(ss[ss.len() - 1]))
    }
}

impl View for Expr {
    type V = ExprView;

    open spec fn view(&self) -> ExprView {
        expr_view(*self)
    }
}

impl View for Stmt {
    type V = StmtView;

    open spec fn view(&self) -> StmtView {
        stmt_view(*self)
    }
}

pub open spec fn params_view(ps: Seq<Param>) -> Seq<(Seq<char>, Type)> {
    ps.map_values(|p: Param| (p.name@, p.ty))
}

impl View for Function {
    type V = FunctionView;

    open spec fn view(&self) -> FunctionView {
        FunctionView {
            name: self.name@,
            params: params_view(self.params@),
            ret_type: self.ret_type,
            body: stmts_view(self.body@),
        }
    }
}

pub open spec fn functions_view(fs: Seq<Function>) -> Seq<FunctionView> {
    fs.map_values(|f: Function| f@)
}

impl View for Program {
    type V = Seq<FunctionView>;

    open spec fn view(&self) -> Seq<FunctionView> {
        functions_view(self.functions@)
    }
}

/// Element `k` of the view of a list of expressions is the view of element `k`.
pub proof fn lemma_exprs_view_index(es: Seq<Expr>)
    ensures
        exprs_view(es).len() == es.len(),
        forall|k: int| 0 <= k < es.len() ==> #[trigger] exprs_view(es)[k] == expr_view(es[k]),
    decreases es.len(),
{
    if es.len() > 0 {
        let init = es.subrange(0, es.len() - 1);
        lemma_exprs_view_index(init);
        assert forall|k: int| 0 <= k < es.len() implies #[trigger] exprs_view(es)[k] == expr_view(es[k]) by {
            if k < es.len() - 1 {
                assert(init[k] == es[k]);
            }
        }
    }
}

/// Element `k` of the view of a list of statements is the view of element `k`.
pub proof fn lemma_stmts_view_index(ss: Seq<Stmt>)
    ensures
        stmts_view(ss).len() == ss.len(),
        forall|k: int| 0 <= k < ss.len() ==> #[trigger] stmts_view(ss)[k] == stmt_view(ss[k]),
    decreases ss.len(),
{
    if ss.len() > 0 {
        let init = ss.subrange(0, ss.len() - 1);
        lemma_stmts_view_index(init);
        assert forall|k: int| 0 <= k < ss.len() implies #[trigger] stmts_view(ss)[k] == stmt_view(ss[k]) by {
            if k < ss.len() - 1 {
                assert(init[k] == ss[k]);
            }
        }
    }
}

} // verus!
