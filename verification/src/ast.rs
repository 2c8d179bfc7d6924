//! The abstract syntax tree built by the parser, and its spec-level
//! counterpart used in contracts.

use vstd::prelude::*;

verus! {

/// A binary operator. `Sequence` is the semicolon: `a; b` is one
/// expression evaluating to `b`'s value.
#[derive(Debug, Clone, Copy, PartialEq, Eq, Structural)]
pub enum BinOp {
    Add,
    Mul,
    Div,
    Sub,
    Equal,
    NotEqual,
    And,
    Or,
    Sequence,
}

/// A unary operator.
#[derive(Debug, Clone, Copy, PartialEq, Eq, Structural)]
pub enum UnOp {
    Not,
    Negate,
}

/// A literal: an integer, a boolean, or the unit value `()`.
#[derive(Debug, Clone, PartialEq, Eq)]
pub enum Lit {
    Num(isize),
    Bool(bool),
    Unit,
}

/// An expression. The tree is strictly owned: every node holds its
/// children as direct values, so there is no sharing and no cycle.
#[derive(Debug, PartialEq, Eq)]
pub enum Expr {
    Ident(String),
    BinExpr { left: Box<Expr>, op: BinOp, right: Box<Expr> },
    /// Sequencing: a statement-or-expression followed by the rest of the
    /// sequence. A trailing `;` with nothing after it pairs the left part
    /// with an implicit unit literal.
    Instructions { left: Box<StmtExpr>, right: Box<StmtExpr> },
    UnExpr { op: UnOp, val: Box<Expr> },
    IfThenElse { condition: Box<Expr>, true_branch: Box<Expr>, false_branch: Box<Expr> },
    While { cond: Box<Expr>, body: Box<Expr> },
    /// A function literal: one named parameter and a body expression.
    Fun { param: String, body: Box<Expr> },
    /// Application of a function expression to a single argument.
    Call { fun: Box<Expr>, param: Box<Expr> },
    Lit(Lit),
}

/// A variable declaration: a name bound to a function expression.
#[derive(Debug, PartialEq, Eq)]
pub struct VarDecl {
    pub name: String,
    pub fun: Box<Expr>,
}

/// A function declaration: a name bound to a function expression.
#[derive(Debug, PartialEq, Eq)]
pub struct FunctionDecl {
    pub name: String,
    pub fun: Box<Expr>,
}

/// A statement; statements occur only as elements of a sequence.
#[derive(Debug, PartialEq, Eq)]
pub enum Statement {
    Return(Expr),
    Break(Expr),
    VarDecl(VarDecl),
    FunDecl(FunctionDecl),
}

/// One element of a sequence: either a statement or a bare expression.
#[derive(Debug, PartialEq, Eq)]
pub enum StmtExpr {
    Stmt(Statement),
    Expr(Expr),
}

/// Spec-level counterpart of [`Lit`].
pub enum SpecLit {
    Num(int),
    Bool(bool),
    Unit,
}

/// Spec-level counterpart of [`Expr`].
pub enum SpecExpr {
    Ident(Seq<char>),
    BinExpr { left: Box<SpecExpr>, op: BinOp, right: Box<SpecExpr> },
    Instructions { left: Box<SpecStmtExpr>, right: Box<SpecStmtExpr> },
    UnExpr { op: UnOp, val: Box<SpecExpr> },
    IfThenElse { condition: Box<SpecExpr>, true_branch: Box<SpecExpr>, false_branch: Box<SpecExpr> },
    While { cond: Box<SpecExpr>, body: Box<SpecExpr> },
    Fun { param: Seq<char>, body: Box<SpecExpr> },
    Call { fun: Box<SpecExpr>, param: Box<SpecExpr> },
    Lit(SpecLit),
}

/// Spec-level counterpart of [`VarDecl`] and [`FunctionDecl`].
pub struct SpecDecl {
    pub name: Seq<char>,
    pub fun: Box<SpecExpr>,
}

/// Spec-level counterpart of [`Statement`].
pub enum SpecStatement {
    Return(SpecExpr),
    Break(SpecExpr),
    VarDecl(SpecDecl),
    FunDecl(SpecDecl),
}

/// Spec-level counterpart of [`StmtExpr`].
pub enum SpecStmtExpr {
    Stmt(SpecStatement),
    Expr(SpecExpr),
}

pub open spec fn expr_view(e: Expr) -> SpecExpr
    decreases e,
{
    match e {
        Expr::Ident(s) => SpecExpr::Ident(s@),
        Expr::BinExpr { left, op, right } => SpecExpr::BinExpr {
            left: Box::new(expr_view(*left)),
            op,
            right: Box::new(expr_view(*right)),
        },
        Expr::Instructions { left, right } => SpecExpr::Instructions {
            left: Box::new(stmt_expr_view(*left)),
            right: Box::new(stmt_expr_view(*right)),
        },
        Expr::UnExpr { op, val } => SpecExpr::UnExpr { op, val: Box::new(expr_view(*val)) },
        Expr::IfThenElse { condition, true_branch, false_branch } => SpecExpr::IfThenElse {
            condition: Box::new(expr_view(*condition)),
            true_branch: Box::new(expr_view(*true_branch)),
            false_branch: Box::new(expr_view(*false_branch)),
        },
        Expr::While { cond, body } => SpecExpr::While {
            cond: Box::new(expr_view(*cond)),
            body: Box::new(expr_view(*body)),
        },
        Expr::Fun { param, body } => SpecExpr::Fun { param: param@, body: Box::new(expr_view(*body)) },
        Expr::Call { fun, param } => SpecExpr::Call {
            fun: Box::new(expr_view(*fun)),
            param: Box::new(expr_view(*param)),
        },
        Expr::Lit(l) => SpecExpr::Lit(lit_view(l)),
    }
}

pub open spec fn lit_view(l: Lit) -> SpecLit {
    match l {
        Lit::Num(n) => SpecLit::Num(n as int),
        Lit::Bool(b) => SpecLit::Bool(b),
        Lit::Unit => SpecLit::Unit,
    }
}

pub open spec fn stmt_view(s: Statement) -> SpecStatement
    decreases s,
{
    match s {
        Statement::Return(e) => SpecStatement::Return(expr_view(e)),
        Statement::Break(e) => SpecStatement::Break(expr_view(e)),
        Statement::VarDecl(d) => SpecStatement::VarDecl(
            SpecDecl { name: d.name@, fun: Box::new(expr_view(*d.fun)) },
        ),
        Statement::FunDecl(d) => SpecStatement::FunDecl(
            SpecDecl { name: d.name@, fun: Box::new(expr_view(*d.fun)) },
        ),
    }
}

pub open spec fn stmt_expr_view(se: StmtExpr) -> SpecStmtExpr
    decreases se,
{
    match se {
        StmtExpr::Stmt(s) => SpecStmtExpr::Stmt(stmt_view(s)),
        StmtExpr::Expr(e) => SpecStmtExpr::Expr(expr_view(e)),
    }
}

impl View for Expr {
    type V = SpecExpr;

    open spec fn view(&self) -> SpecExpr {
        expr_view(*self)
    }
}

impl View for Lit {
    type V = SpecLit;

    open spec fn view(&self) -> SpecLit {
        lit_view(*self)
    }
}

impl View for Statement {
    type V = SpecStatement;

    open spec fn view(&self) -> SpecStatement {
        stmt_view(*self)
    }
}

impl View for StmtExpr {
    type V = SpecStmtExpr;

    open spec fn view(&self) -> SpecStmtExpr {
        stmt_expr_view(*self)
    }
}

} // verus!
