//! The parser: predictive recursive descent with one token of lookahead,
//! building the expression tree directly from the token stream.
//!
//! Precedence, from loosest to tightest binding: sequencing (`;`),
//! equality (`==`, `!=`), additive (`+`, `-`), multiplicative (`*`, `/`),
//! unary (`!`, `-`), call, atom. Binary levels fold left-associatively;
//! an argument list of length `n` desugars into `n` nested single-argument
//! calls, leftmost argument applied first. The grammar, with `*` for
//! repetition and `?` for an optional part:
//!
//! ```text
//! program  = expr END
//! expr     = element (';' element?)*      element omitted only before a closer
//! element  = 'return' eq
//!          | 'fn' IDENT '(' IDENT ')' '{' expr '}'
//!          | eq
//! eq       = add (('==' | '!=') add)*
//! add      = mul (('+' | '-') mul)*
//! mul      = unary (('*' | '/') unary)*
//! unary    = ('!' | '-') unary | call
//! call     = atom ('(' args? ')')*
//! args     = expr (',' expr)*
//! atom     = IDENT | NUM | BOOL | '(' ')' | '(' expr ')'
//! ```
//!
//! The executable parser is proved to return exactly what the spec-level
//! parser [`sp_program`] yields; in particular a successful parse has
//! consumed every token.

use crate::ast::{
    BinOp, Expr, FunctionDecl, Lit, SpecDecl, SpecExpr, SpecLit, SpecStatement, SpecStmtExpr,
    Statement, StmtExpr, UnOp,
};
use crate::errors::{ParseError, ParseErrorKind, SpecParseError};
use crate::tokens::{toks_v, SpecToken, SpecTokenKind, Token, TokenKind, TokensIterator};
use crate::utils::{RangedPos, SpecPos};
use vstd::prelude::*;

verus! {

/// The kind of the next unconsumed token, or the end-of-stream marker
/// when the cursor is past the last token.
pub open spec fn found_kind(ts: Seq<SpecToken>, i: int) -> SpecTokenKind {
    if 0 <= i < ts.len() {
        ts[i].kind
    } else {
        SpecTokenKind::Eof
    }
}

/// The position reported for an error at cursor `i`: the lookahead
/// token's position, or the last token's when the stream is exhausted.
pub open spec fn cur_pos(ts: Seq<SpecToken>, i: int) -> SpecPos {
    if 0 <= i < ts.len() {
        ts[i].pos
    } else if ts.len() > 0 {
        ts[ts.len() - 1].pos
    } else {
        SpecPos { line: 1, char_: 1, width: 1 }
    }
}

/// A syntax error at cursor `i`: what was expected, what stood there.
pub open spec fn expected(desc: Seq<char>, ts: Seq<SpecToken>, i: int) -> SpecParseError {
    SpecParseError { desc, found: found_kind(ts, i), pos: cur_pos(ts, i) }
}

/// A sub-parse stepped backwards or out of the stream. This never holds
/// of the results the parsers below produce; the branches testing it are
/// dead, and exist so that every recursion visibly shrinks the remaining
/// stream.
pub open spec fn stuck(ts: Seq<SpecToken>, lo: int, k: int) -> bool {
    k <= lo || k > ts.len()
}

/// Tokens that may close a sequence, so that a trailing `;` right before
/// one of them appends an implicit unit literal.
pub open spec fn seq_ender(k: SpecTokenKind) -> bool {
    k is Eof || k is RParen || k is RBracket
}

/// Curried application: apply `f` to each argument in turn, leftmost
/// first.
pub open spec fn fold_calls(f: SpecExpr, args: Seq<SpecExpr>) -> SpecExpr
    decreases args.len(),
{
    if args.len() == 0 {
        f
    } else {
        fold_calls(
            SpecExpr::Call { fun: Box::new(f), param: Box::new(args[0]) },
            args.drop_first(),
        )
    }
}

/// An atom: identifier, integer literal, boolean literal, the unit
/// literal `()`, or a parenthesized sub-expression.
pub open spec fn sp_atom(ts: Seq<SpecToken>, i: int) -> Result<(SpecExpr, int), SpecParseError>
    decreases ts.len() - i, 2int,
{
    match found_kind(ts, i) {
        SpecTokenKind::Ident(name) => Ok((SpecExpr::Ident(name), i + 1)),
        SpecTokenKind::Num(n) => Ok((SpecExpr::Lit(SpecLit::Num(n)), i + 1)),
        SpecTokenKind::Bool(b) => Ok((SpecExpr::Lit(SpecLit::Bool(b)), i + 1)),
        SpecTokenKind::LParen => {
            if found_kind(ts, i + 1) is RParen {
                Ok((SpecExpr::Lit(SpecLit::Unit), i + 2))
            } else {
                match sp_expr(ts, i + 1) {
                    Ok((e, j)) => {
                        if found_kind(ts, j) is RParen {
                            Ok((e, j + 1))
                        } else {
                            Err(expected("an enclosing parenthesis"@, ts, j))
                        }
                    },
                    Err(e) => Err(e),
                }
            }
        },
        _ => Err(expected("an expression"@, ts, i)),
    }
}

/// A callable atom followed by any number of parenthesized argument
/// lists; an empty list leaves the callee as it is.
pub open spec fn sp_callp(ts: Seq<SpecToken>, i: int) -> Result<(SpecExpr, int), SpecParseError>
    decreases ts.len() - i, 6int,
{
    match sp_atom(ts, i) {
        Ok((f, j)) => {
            if stuck(ts, i, j) {
                Err(expected("an expression"@, ts, j))
            } else {
                sp_call_tail(ts, f, j)
            }
        },
        Err(e) => Err(e),
    }
}

pub open spec fn sp_call_tail(ts: Seq<SpecToken>, f: SpecExpr, j: int) -> Result<
    (SpecExpr, int),
    SpecParseError,
>
    decreases ts.len() - j, 5int,
{
    if found_kind(ts, j) is LParen {
        if found_kind(ts, j + 1) is RParen {
            sp_call_tail(ts, f, j + 2)
        } else {
            match sp_args(ts, j + 1) {
                Ok((args, k)) => {
                    if stuck(ts, j + 1, k) {
                        Err(expected("an expression"@, ts, k))
                    } else {
                        sp_call_tail(ts, fold_calls(f, args), k)
                    }
                },
                Err(e) => Err(e),
            }
        }
    } else {
        Ok((f, j))
    }
}

/// A non-empty comma-separated argument list, up to and including the
/// closing parenthesis.
pub open spec fn sp_args(ts: Seq<SpecToken>, m: int) -> Result<
    (Seq<SpecExpr>, int),
    SpecParseError,
>
    decreases ts.len() - m, 19int,
{
    match sp_expr(ts, m) {
        Ok((e1, k)) => {
            if stuck(ts, m - 1, k) {
                Err(expected("an expression"@, ts, k))
            } else {
                match found_kind(ts, k) {
                    SpecTokenKind::Comma => match sp_args(ts, k + 1) {
                        Ok((rest, r)) => Ok((seq![e1] + rest, r)),
                        Err(e) => Err(e),
                    },
                    SpecTokenKind::RParen => Ok((seq![e1], k + 1)),
                    _ => Err(expected("an enclosing parenthesis"@, ts, k)),
                }
            }
        },
        Err(e) => Err(e),
    }
}

/// Unary operators bind tighter than every binary level and looser than
/// calls.
pub open spec fn sp_unary(ts: Seq<SpecToken>, i: int) -> Result<(SpecExpr, int), SpecParseError>
    decreases ts.len() - i, 8int,
{
    if found_kind(ts, i) is Bang {
        match sp_unary(ts, i + 1) {
            Ok((e, j)) => Ok(
                (SpecExpr::UnExpr { op: UnOp::Not, val: Box::new(e) }, j),
            ),
            Err(e) => Err(e),
        }
    } else if found_kind(ts, i) is Minus {
        match sp_unary(ts, i + 1) {
            Ok((e, j)) => Ok(
                (SpecExpr::UnExpr { op: UnOp::Negate, val: Box::new(e) }, j),
            ),
            Err(e) => Err(e),
        }
    } else {
        sp_callp(ts, i)
    }
}

pub open spec fn sp_mul(ts: Seq<SpecToken>, i: int) -> Result<(SpecExpr, int), SpecParseError>
    decreases ts.len() - i, 10int,
{
    match sp_unary(ts, i) {
        Ok((l, j)) => {
            if stuck(ts, i, j) {
                Err(expected("an expression"@, ts, j))
            } else {
                sp_mul_tail(ts, l, j)
            }
        },
        Err(e) => Err(e),
    }
}

pub open spec fn sp_mul_tail(ts: Seq<SpecToken>, l: SpecExpr, j: int) -> Result<
    (SpecExpr, int),
    SpecParseError,
>
    decreases ts.len() - j, 9int,
{
    let k0 = found_kind(ts, j);
    if k0 is Mul || k0 is Div {
        let op = if k0 is Mul {
            BinOp::Mul
        } else {
            BinOp::Div
        };
        match sp_unary(ts, j + 1) {
            Ok((r, k)) => {
                if stuck(ts, j, k) {
                    Err(expected("an expression"@, ts, k))
                } else {
                    sp_mul_tail(
                        ts,
                        SpecExpr::BinExpr { left: Box::new(l), op, right: Box::new(r) },
                        k,
                    )
                }
            },
            Err(e) => Err(e),
        }
    } else {
        Ok((l, j))
    }
}

pub open spec fn sp_add(ts: Seq<SpecToken>, i: int) -> Result<(SpecExpr, int), SpecParseError>
    decreases ts.len() - i, 12int,
{
    match sp_mul(ts, i) {
        Ok((l, j)) => {
            if stuck(ts, i, j) {
                Err(expected("an expression"@, ts, j))
            } else {
                sp_add_tail(ts, l, j)
            }
        },
        Err(e) => Err(e),
    }
}

pub open spec fn sp_add_tail(ts: Seq<SpecToken>, l: SpecExpr, j: int) -> Result<
    (SpecExpr, int),
    SpecParseError,
>
    decreases ts.len() - j, 11int,
{
    let k0 = found_kind(ts, j);
    if k0 is Add || k0 is Minus {
        let op = if k0 is Add {
            BinOp::Add
        } else {
            BinOp::Sub
        };
        match sp_mul(ts, j + 1) {
            Ok((r, k)) => {
                if stuck(ts, j, k) {
                    Err(expected("an expression"@, ts, k))
                } else {
                    sp_add_tail(
                        ts,
                        SpecExpr::BinExpr { left: Box::new(l), op, right: Box::new(r) },
                        k,
                    )
                }
            },
            Err(e) => Err(e),
        }
    } else {
        Ok((l, j))
    }
}

pub open spec fn sp_eq(ts: Seq<SpecToken>, i: int) -> Result<(SpecExpr, int), SpecParseError>
    decreases ts.len() - i, 14int,
{
    match sp_add(ts, i) {
        Ok((l, j)) => {
            if stuck(ts, i, j) {
                Err(expected("an expression"@, ts, j))
            } else {
                sp_eq_tail(ts, l, j)
            }
        },
        Err(e) => Err(e),
    }
}

pub open spec fn sp_eq_tail(ts: Seq<SpecToken>, l: SpecExpr, j: int) -> Result<
    (SpecExpr, int),
    SpecParseError,
>
    decreases ts.len() - j, 13int,
{
    let k0 = found_kind(ts, j);
    if k0 is EqEq || k0 is BangEq {
        let op = if k0 is EqEq {
            BinOp::Equal
        } else {
            BinOp::NotEqual
        };
        match sp_add(ts, j + 1) {
            Ok((r, k)) => {
                if stuck(ts, j, k) {
                    Err(expected("an expression"@, ts, k))
                } else {
                    sp_eq_tail(
                        ts,
                        SpecExpr::BinExpr { left: Box::new(l), op, right: Box::new(r) },
                        k,
                    )
                }
            },
            Err(e) => Err(e),
        }
    } else {
        Ok((l, j))
    }
}

/// One element of a sequence: a `return` statement, a function
/// declaration, or a bare expression.
pub open spec fn sp_element(ts: Seq<SpecToken>, i: int) -> Result<
    (SpecStmtExpr, int),
    SpecParseError,
>
    decreases ts.len() - i, 16int,
{
    if found_kind(ts, i) is Return {
        match sp_eq(ts, i + 1) {
            Ok((e, j)) => Ok((SpecStmtExpr::Stmt(SpecStatement::Return(e)), j)),
            Err(e) => Err(e),
        }
    } else if found_kind(ts, i) is Fn {
        match found_kind(ts, i + 1) {
            SpecTokenKind::Ident(name) => {
                if !(found_kind(ts, i + 2) is LParen) {
                    Err(expected("an opening parenthesis"@, ts, i + 2))
                } else {
                    match found_kind(ts, i + 3) {
                        SpecTokenKind::Ident(param) => {
                            if !(found_kind(ts, i + 4) is RParen) {
                                Err(expected("an enclosing parenthesis"@, ts, i + 4))
                            } else if !(found_kind(ts, i + 5) is LBracket) {
                                Err(expected("an opening brace"@, ts, i + 5))
                            } else {
                                match sp_expr(ts, i + 6) {
                                    Ok((body, j)) => {
                                        if found_kind(ts, j) is RBracket {
                                            Ok(
                                                (
                                                    SpecStmtExpr::Stmt(
                                                        SpecStatement::FunDecl(
                                                            SpecDecl {
                                                                name,
                                                                fun: Box::new(
                                                                    SpecExpr::Fun {
                                                                        param,
                                                                        body: Box::new(body),
                                                                    },
                                                                ),
                                                            },
                                                        ),
                                                    ),
                                                    j + 1,
                                                ),
                                            )
                                        } else {
                                            Err(expected("a closing brace"@, ts, j))
                                        }
                                    },
                                    Err(e) => Err(e),
                                }
                            }
                        },
                        _ => Err(expected("a parameter name"@, ts, i + 3)),
                    }
                }
            },
            _ => Err(expected("a function name"@, ts, i + 1)),
        }
    } else {
        match sp_eq(ts, i) {
            Ok((e, j)) => Ok((SpecStmtExpr::Expr(e), j)),
            Err(e) => Err(e),
        }
    }
}

/// A whole expression: a sequence of elements separated by `;`, folded
/// left to right into sequencing nodes. A trailing `;` before a closer
/// appends an implicit unit literal, and a sequence consisting of one
/// statement is paired with an implicit unit as well.
pub open spec fn sp_expr(ts: Seq<SpecToken>, i: int) -> Result<(SpecExpr, int), SpecParseError>
    decreases ts.len() - i, 18int,
{
    match sp_element(ts, i) {
        Ok((se, j)) => {
            if stuck(ts, i, j) {
                Err(expected("an expression"@, ts, j))
            } else {
                sp_seq_tail(ts, se, j)
            }
        },
        Err(e) => Err(e),
    }
}

pub open spec fn sp_seq_tail(ts: Seq<SpecToken>, acc: SpecStmtExpr, j: int) -> Result<
    (SpecExpr, int),
    SpecParseError,
>
    decreases ts.len() - j, 17int,
{
    if found_kind(ts, j) is Semicolon {
        if seq_ender(found_kind(ts, j + 1)) {
            Ok(
                (
                    SpecExpr::Instructions {
                        left: Box::new(acc),
                        right: Box::new(SpecStmtExpr::Expr(SpecExpr::Lit(SpecLit::Unit))),
                    },
                    j + 1,
                ),
            )
        } else {
            match sp_element(ts, j + 1) {
                Ok((se2, k)) => {
                    if stuck(ts, j, k) {
                        Err(expected("an expression"@, ts, k))
                    } else {
                        sp_seq_tail(
                            ts,
                            SpecStmtExpr::Expr(
                                SpecExpr::Instructions {
                                    left: Box::new(acc),
                                    right: Box::new(se2),
                                },
                            ),
                            k,
                        )
                    }
                },
                Err(e) => Err(e),
            }
        }
    } else {
        match acc {
            SpecStmtExpr::Expr(e) => Ok((e, j)),
            SpecStmtExpr::Stmt(st) => Ok(
                (
                    SpecExpr::Instructions {
                        left: Box::new(SpecStmtExpr::Stmt(st)),
                        right: Box::new(SpecStmtExpr::Expr(SpecExpr::Lit(SpecLit::Unit))),
                    },
                    j,
                ),
            ),
        }
    }
}

/// A whole program: one expression that must consume the entire stream.
pub open spec fn sp_program(ts: Seq<SpecToken>, i: int) -> Result<SpecExpr, SpecParseError>
    decreases ts.len() - i, 20int,
{
    match sp_expr(ts, i) {
        Ok((e, j)) => {
            if j == ts.len() {
                Ok(e)
            } else {
                Err(expected("end of input"@, ts, j))
            }
        },
        Err(e) => Err(e),
    }
}

/// A successful parse consumes every token: whenever the spec parser
/// accepts a program, the expression parse underneath it ended exactly
/// at the end of the token stream, so no token is left unconsumed.
pub proof fn lemma_parse_consumes_all(ts: Seq<SpecToken>, i: int)
    requires
        sp_program(ts, i) is Ok,
    ensures
        sp_expr(ts, i) is Ok,
        sp_expr(ts, i)->Ok_0.1 == ts.len(),
{
}

/// The view of an error produced by the executable parser.
pub open spec fn perr_v(e: (ParseErrorKind, RangedPos)) -> SpecParseError {
    match e.0 {
        ParseErrorKind::ExpectedFound(desc, found) => SpecParseError {
            desc: desc@,
            found: found@,
            pos: e.1@,
        },
    }
}

/// The views of a sequence of expressions.
pub open spec fn exprs_v(es: Seq<Expr>) -> Seq<SpecExpr> {
    es.map_values(|e: Expr| e@)
}

/// An executable expression-level result agrees with the spec parser's:
/// same success, same tree, same resting point (past `lo`, within the
/// stream), same error.
pub open spec fn expr_res_matches(
    r: Result<(Expr, usize), (ParseErrorKind, RangedPos)>,
    s: Result<(SpecExpr, int), SpecParseError>,
    lo: int,
    n: int,
) -> bool {
    match r {
        Ok((e, j)) => s is Ok && e@ == s->Ok_0.0 && j as int == s->Ok_0.1 && lo < j as int <= n,
        Err(pe) => s is Err && perr_v(pe) == s->Err_0,
    }
}

/// As [`expr_res_matches`], for one sequence element.
pub open spec fn stmt_res_matches(
    r: Result<(StmtExpr, usize), (ParseErrorKind, RangedPos)>,
    s: Result<(SpecStmtExpr, int), SpecParseError>,
    lo: int,
    n: int,
) -> bool {
    match r {
        Ok((se, j)) => s is Ok && se@ == s->Ok_0.0 && j as int == s->Ok_0.1 && lo < j as int <= n,
        Err(pe) => s is Err && perr_v(pe) == s->Err_0,
    }
}

/// As [`expr_res_matches`], for an argument list.
pub open spec fn args_res_matches(
    r: Result<(Vec<Expr>, usize), (ParseErrorKind, RangedPos)>,
    s: Result<(Seq<SpecExpr>, int), SpecParseError>,
    lo: int,
    n: int,
) -> bool {
    match r {
        Ok((v, j)) => s is Ok && exprs_v(v@) == s->Ok_0.0 && j as int == s->Ok_0.1 && lo < j as int
            <= n,
        Err(pe) => s is Err && perr_v(pe) == s->Err_0,
    }
}

/// The error the executable parser reports at cursor `i`.
fn mk_err(desc: &str, ts: &Vec<Token>, i: usize) -> (r: (ParseErrorKind, RangedPos))
    ensures
        perr_v(r) == expected(desc@, toks_v(ts@), i as int),
{
    let found = if i < ts.len() {
        crate::tokens::clone_kind(&ts[i].kind)
    } else {
        TokenKind::Eof
    };
    let pos = if i < ts.len() {
        ts[i].pos
    } else if ts.len() > 0 {
        ts[ts.len() - 1].pos
    } else {
        RangedPos { line: 1, char_: 1, width: 1 }
    };
    (ParseErrorKind::ExpectedFound(String::from_str(desc), found), pos)
}

fn p_atom(ts: &Vec<Token>, i: usize) -> (r: Result<(Expr, usize), (ParseErrorKind, RangedPos)>)
    requires
        i <= ts@.len(),
    ensures
        expr_res_matches(r, sp_atom(toks_v(ts@), i as int), i as int, ts@.len() as int),
    decreases ts@.len() - i, 2int,
{
    if i < ts.len() {
        match &ts[i].kind {
            TokenKind::Ident(name) => Ok((Expr::Ident(name.clone()), i + 1)),
            TokenKind::Num(n) => Ok((Expr::Lit(Lit::Num(*n)), i + 1)),
            TokenKind::Bool(b) => Ok((Expr::Lit(Lit::Bool(*b)), i + 1)),
            TokenKind::LParen => {
                if i + 1 < ts.len() && matches!(&ts[i + 1].kind, TokenKind::RParen) {
                    Ok((Expr::Lit(Lit::Unit), i + 2))
                } else {
                    match p_expr(ts, i + 1) {
                        Ok((e, j)) => {
                            if j < ts.len() && matches!(&ts[j].kind, TokenKind::RParen) {
                                Ok((e, j + 1))
                            } else {
                                Err(mk_err("an enclosing parenthesis", ts, j))
                            }
                        },
                        Err(e) => Err(e),
                    }
                }
            },
            _ => Err(mk_err("an expression", ts, i)),
        }
    } else {
        Err(mk_err("an expression", ts, i))
    }
}

fn p_callp(ts: &Vec<Token>, i: usize) -> (r: Result<(Expr, usize), (ParseErrorKind, RangedPos)>)
    requires
        i <= ts@.len(),
    ensures
        expr_res_matches(r, sp_callp(toks_v(ts@), i as int), i as int, ts@.len() as int),
    decreases ts@.len() - i, 6int,
{
    match p_atom(ts, i) {
        Ok((f, j)) => p_call_tail(ts, f, j),
        Err(e) => Err(e),
    }
}

fn p_call_tail(ts: &Vec<Token>, f: Expr, j: usize) -> (r: Result<
    (Expr, usize),
    (ParseErrorKind, RangedPos),
>)
    requires
        j <= ts@.len(),
    ensures
        expr_res_matches(r, sp_call_tail(toks_v(ts@), f@, j as int), j as int - 1, ts@.len() as int),
    decreases ts@.len() - j, 5int,
{
    if j < ts.len() && matches!(&ts[j].kind, TokenKind::LParen) {
        if j + 1 < ts.len() && matches!(&ts[j + 1].kind, TokenKind::RParen) {
            p_call_tail(ts, f, j + 2)
        } else {
            match p_args(ts, j + 1) {
                Ok((args, k)) => {
                    let nf = fold_calls_exec(f, args);
                    p_call_tail(ts, nf, k)
                },
                Err(e) => Err(e),
            }
        }
    } else {
        Ok((f, j))
    }
}

/// Curried application, executably: apply `f` to each argument in turn.
fn fold_calls_exec(f: Expr, args: Vec<Expr>) -> (r: Expr)
    ensures
        r@ == fold_calls(f@, exprs_v(args@)),
{
    let ghost goal = fold_calls(f@, exprs_v(args@));
    let mut cur = f;
    let mut rest = args;
    while rest.len() > 0
        invariant
            fold_calls(cur@, exprs_v(rest@)) == goal,
        decreases rest@.len(),
    {
        let ghost prev = rest@;
        let a = rest.remove(0);
        proof {
            assert(exprs_v(rest@) =~= exprs_v(prev).drop_first());
            assert(a@ == exprs_v(prev)[0]);
        }
        cur = Expr::Call { fun: Box::new(cur), param: Box::new(a) };
    }
    proof {
        assert(exprs_v(rest@) =~= Seq::<SpecExpr>::empty());
    }
    cur
}

fn p_args(ts: &Vec<Token>, m: usize) -> (r: Result<
    (Vec<Expr>, usize),
    (ParseErrorKind, RangedPos),
>)
    requires
        m <= ts@.len(),
    ensures
        args_res_matches(r, sp_args(toks_v(ts@), m as int), m as int, ts@.len() as int),
    decreases ts@.len() - m, 19int,
{
    match p_expr(ts, m) {
        Ok((e1, k)) => {
            if k < ts.len() && matches!(&ts[k].kind, TokenKind::Comma) {
                match p_args(ts, k + 1) {
                    Ok((rest, r2)) => {
                        let mut v = rest;
                        let ghost prev = v@;
                        v.insert(0, e1);
                        proof {
                            assert(exprs_v(v@) =~= seq![e1@] + exprs_v(prev));
                        }
                        Ok((v, r2))
                    },
                    Err(e) => Err(e),
                }
            } else if k < ts.len() && matches!(&ts[k].kind, TokenKind::RParen) {
                let mut v: Vec<Expr> = Vec::new();
                v.push(e1);
                proof {
                    assert(exprs_v(v@) =~= seq![e1@]);
                }
                Ok((v, k + 1))
            } else {
                Err(mk_err("an enclosing parenthesis", ts, k))
            }
        },
        Err(e) => Err(e),
    }
}

fn p_unary(ts: &Vec<Token>, i: usize) -> (r: Result<(Expr, usize), (ParseErrorKind, RangedPos)>)
    requires
        i <= ts@.len(),
    ensures
        expr_res_matches(r, sp_unary(toks_v(ts@), i as int), i as int, ts@.len() as int),
    decreases ts@.len() - i, 8int,
{
    if i < ts.len() && matches!(&ts[i].kind, TokenKind::Bang) {
        match p_unary(ts, i + 1) {
            Ok((e, j)) => Ok((Expr::UnExpr { op: UnOp::Not, val: Box::new(e) }, j)),
            Err(e) => Err(e),
        }
    } else if i < ts.len() && matches!(&ts[i].kind, TokenKind::Minus) {
        match p_unary(ts, i + 1) {
            Ok((e, j)) => Ok((Expr::UnExpr { op: UnOp::Negate, val: Box::new(e) }, j)),
            Err(e) => Err(e),
        }
    } else {
        p_callp(ts, i)
    }
}

fn p_mul(ts: &Vec<Token>, i: usize) -> (r: Result<(Expr, usize), (ParseErrorKind, RangedPos)>)
    requires
        i <= ts@.len(),
    ensures
        expr_res_matches(r, sp_mul(toks_v(ts@), i as int), i as int, ts@.len() as int),
    decreases ts@.len() - i, 10int,
{
    match p_unary(ts, i) {
        Ok((l, j)) => p_mul_tail(ts, l, j),
        Err(e) => Err(e),
    }
}

fn p_mul_tail(ts: &Vec<Token>, l: Expr, j: usize) -> (r: Result<
    (Expr, usize),
    (ParseErrorKind, RangedPos),
>)
    requires
        j <= ts@.len(),
    ensures
        expr_res_matches(r, sp_mul_tail(toks_v(ts@), l@, j as int), j as int - 1, ts@.len() as int),
    decreases ts@.len() - j, 9int,
{
    if j < ts.len() && (matches!(&ts[j].kind, TokenKind::Mul) || matches!(
        &ts[j].kind,
        TokenKind::Div,
    )) {
        let op = if matches!(&ts[j].kind, TokenKind::Mul) {
            BinOp::Mul
        } else {
            BinOp::Div
        };
        match p_unary(ts, j + 1) {
            Ok((rr, k)) => p_mul_tail(
                ts,
                Expr::BinExpr { left: Box::new(l), op, right: Box::new(rr) },
                k,
            ),
            Err(e) => Err(e),
        }
    } else {
        Ok((l, j))
    }
}

fn p_add(ts: &Vec<Token>, i: usize) -> (r: Result<(Expr, usize), (ParseErrorKind, RangedPos)>)
    requires
        i <= ts@.len(),
    ensures
        expr_res_matches(r, sp_add(toks_v(ts@), i as int), i as int, ts@.len() as int),
    decreases ts@.len() - i, 12int,
{
    match p_mul(ts, i) {
        Ok((l, j)) => p_add_tail(ts, l, j),
        Err(e) => Err(e),
    }
}

fn p_add_tail(ts: &Vec<Token>, l: Expr, j: usize) -> (r: Result<
    (Expr, usize),
    (ParseErrorKind, RangedPos),
>)
    requires
        j <= ts@.len(),
    ensures
        expr_res_matches(r, sp_add_tail(toks_v(ts@), l@, j as int), j as int - 1, ts@.len() as int),
    decreases ts@.len() - j, 11int,
{
    if j < ts.len() && (matches!(&ts[j].kind, TokenKind::Add) || matches!(
        &ts[j].kind,
        TokenKind::Minus,
    )) {
        let op = if matches!(&ts[j].kind, TokenKind::Add) {
            BinOp::Add
        } else {
            BinOp::Sub
        };
        match p_mul(ts, j + 1) {
            Ok((rr, k)) => p_add_tail(
                ts,
                Expr::BinExpr { left: Box::new(l), op, right: Box::new(rr) },
                k,
            ),
            Err(e) => Err(e),
        }
    } else {
        Ok((l, j))
    }
}

fn p_eq(ts: &Vec<Token>, i: usize) -> (r: Result<(Expr, usize), (ParseErrorKind, RangedPos)>)
    requires
        i <= ts@.len(),
    ensures
        expr_res_matches(r, sp_eq(toks_v(ts@), i as int), i as int, ts@.len() as int),
    decreases ts@.len() - i, 14int,
{
    match p_add(ts, i) {
        Ok((l, j)) => p_eq_tail(ts, l, j),
        Err(e) => Err(e),
    }
}

fn p_eq_tail(ts: &Vec<Token>, l: Expr, j: usize) -> (r: Result<
    (Expr, usize),
    (ParseErrorKind, RangedPos),
>)
    requires
        j <= ts@.len(),
    ensures
        expr_res_matches(r, sp_eq_tail(toks_v(ts@), l@, j as int), j as int - 1, ts@.len() as int),
    decreases ts@.len() - j, 13int,
{
    if j < ts.len() && (matches!(&ts[j].kind, TokenKind::EqEq) || matches!(
        &ts[j].kind,
        TokenKind::BangEq,
    )) {
        let op = if matches!(&ts[j].kind, TokenKind::EqEq) {
            BinOp::Equal
        } else {
            BinOp::NotEqual
        };
        match p_add(ts, j + 1) {
            Ok((rr, k)) => p_eq_tail(
                ts,
                Expr::BinExpr { left: Box::new(l), op, right: Box::new(rr) },
                k,
            ),
            Err(e) => Err(e),
        }
    } else {
        Ok((l, j))
    }
}

#[verifier::rlimit(60)]
fn p_element(ts: &Vec<Token>, i: usize) -> (r: Result<
    (StmtExpr, usize),
    (ParseErrorKind, RangedPos),
>)
    requires
        i <= ts@.len(),
    ensures
        stmt_res_matches(r, sp_element(toks_v(ts@), i as int), i as int, ts@.len() as int),
    decreases ts@.len() - i, 16int,
{
    if i < ts.len() && matches!(&ts[i].kind, TokenKind::Return) {
        match p_eq(ts, i + 1) {
            Ok((e, j)) => {
                let ghost ev = e@;
                let se = StmtExpr::Stmt(Statement::Return(e));
                proof {
                    assert(se@ == SpecStmtExpr::Stmt(SpecStatement::Return(ev)));
                }
                Ok((se, j))
            },
            Err(e) => Err(e),
        }
    } else if i < ts.len() && matches!(&ts[i].kind, TokenKind::Fn) {
        if i + 1 < ts.len() && matches!(&ts[i + 1].kind, TokenKind::Ident(_)) {
            let name = match &ts[i + 1].kind {
                TokenKind::Ident(s2) => s2.clone(),
                _ => String::new(),
            };
            if !(i + 2 < ts.len() && matches!(&ts[i + 2].kind, TokenKind::LParen)) {
                Err(mk_err("an opening parenthesis", ts, i + 2))
            } else if i + 3 < ts.len() && matches!(&ts[i + 3].kind, TokenKind::Ident(_)) {
                let param = match &ts[i + 3].kind {
                    TokenKind::Ident(s2) => s2.clone(),
                    _ => String::new(),
                };
                if !(i + 4 < ts.len() && matches!(&ts[i + 4].kind, TokenKind::RParen)) {
                    Err(mk_err("an enclosing parenthesis", ts, i + 4))
                } else if !(i + 5 < ts.len() && matches!(&ts[i + 5].kind, TokenKind::LBracket)) {
                    Err(mk_err("an opening brace", ts, i + 5))
                } else {
                    match p_expr(ts, i + 6) {
                        Ok((body, j)) => {
                            if j < ts.len() && matches!(&ts[j].kind, TokenKind::RBracket) {
                                let ghost bv = body@;
                                let ghost nv = name@;
                                let ghost pv = param@;
                                let se = StmtExpr::Stmt(
                                    Statement::FunDecl(
                                        FunctionDecl {
                                            name,
                                            fun: Box::new(
                                                Expr::Fun { param, body: Box::new(body) },
                                            ),
                                        },
                                    ),
                                );
                                proof {
                                    reveal_with_fuel(crate::ast::expr_view, 3);
                                    reveal_with_fuel(crate::ast::stmt_view, 3);
                                    reveal_with_fuel(crate::ast::stmt_expr_view, 3);
                                    assert(se@ == SpecStmtExpr::Stmt(
                                        SpecStatement::FunDecl(
                                            SpecDecl {
                                                name: nv,
                                                fun: Box::new(
                                                    SpecExpr::Fun { param: pv, body: Box::new(bv) },
                                                ),
                                            },
                                        ),
                                    ));
                                }
                                Ok((se, j + 1))
                            } else {
                                Err(mk_err("a closing brace", ts, j))
                            }
                        },
                        Err(e) => Err(e),
                    }
                }
            } else {
                Err(mk_err("a parameter name", ts, i + 3))
            }
        } else {
            Err(mk_err("a function name", ts, i + 1))
        }
    } else {
        match p_eq(ts, i) {
            Ok((e, j)) => {
                let ghost ev = e@;
                let se = StmtExpr::Expr(e);
                proof {
                    assert(se@ == SpecStmtExpr::Expr(ev));
                }
                Ok((se, j))
            },
            Err(e) => Err(e),
        }
    }
}

fn p_expr(ts: &Vec<Token>, i: usize) -> (r: Result<(Expr, usize), (ParseErrorKind, RangedPos)>)
    requires
        i <= ts@.len(),
    ensures
        expr_res_matches(r, sp_expr(toks_v(ts@), i as int), i as int, ts@.len() as int),
    decreases ts@.len() - i, 18int,
{
    match p_element(ts, i) {
        Ok((se, j)) => p_seq_tail(ts, se, j),
        Err(e) => Err(e),
    }
}

fn p_seq_tail(ts: &Vec<Token>, acc: StmtExpr, j: usize) -> (r: Result<
    (Expr, usize),
    (ParseErrorKind, RangedPos),
>)
    requires
        j <= ts@.len(),
    ensures
        expr_res_matches(r, sp_seq_tail(toks_v(ts@), acc@, j as int), j as int - 1, ts@.len() as int),
    decreases ts@.len() - j, 17int,
{
    if j < ts.len() && matches!(&ts[j].kind, TokenKind::Semicolon) {
        let ender = if j + 1 < ts.len() {
            matches!(&ts[j + 1].kind, TokenKind::RParen) || matches!(
                &ts[j + 1].kind,
                TokenKind::RBracket,
            ) || matches!(&ts[j + 1].kind, TokenKind::Eof)
        } else {
            true
        };
        if ender {
            let out = Expr::Instructions {
                left: Box::new(acc),
                right: Box::new(StmtExpr::Expr(Expr::Lit(Lit::Unit))),
            };
            proof {
                reveal_with_fuel(crate::ast::expr_view, 3);
                reveal_with_fuel(crate::ast::stmt_expr_view, 3);
                assert(out@ == (SpecExpr::Instructions {
                    left: Box::new(acc@),
                    right: Box::new(SpecStmtExpr::Expr(SpecExpr::Lit(SpecLit::Unit))),
                }));
                assert(seq_ender(found_kind(toks_v(ts@), j as int + 1)));
            }
            Ok((out, j + 1))
        } else {
            match p_element(ts, j + 1) {
                Ok((se2, k)) => {
                    let ghost av = acc@;
                    let ghost sv = se2@;
                    let acc2 = StmtExpr::Expr(
                        Expr::Instructions { left: Box::new(acc), right: Box::new(se2) },
                    );
                    proof {
                        reveal_with_fuel(crate::ast::expr_view, 3);
                        reveal_with_fuel(crate::ast::stmt_expr_view, 3);
                        assert(acc2@ == SpecStmtExpr::Expr(
                            SpecExpr::Instructions { left: Box::new(av), right: Box::new(sv) },
                        ));
                    }
                    p_seq_tail(ts, acc2, k)
                },
                Err(e) => Err(e),
            }
        }
    } else {
        let ghost av = acc@;
        match acc {
            StmtExpr::Expr(e) => Ok((e, j)),
            StmtExpr::Stmt(st) => {
                let ghost stv = st@;
                let out = Expr::Instructions {
                    left: Box::new(StmtExpr::Stmt(st)),
                    right: Box::new(StmtExpr::Expr(Expr::Lit(Lit::Unit))),
                };
                proof {
                    reveal_with_fuel(crate::ast::expr_view, 3);
                    reveal_with_fuel(crate::ast::stmt_expr_view, 3);
                    assert(out@ == (SpecExpr::Instructions {
                        left: Box::new(SpecStmtExpr::Stmt(stv)),
                        right: Box::new(SpecStmtExpr::Expr(SpecExpr::Lit(SpecLit::Unit))),
                    }));
                    assert(av == SpecStmtExpr::Stmt(stv));
                }
                Ok((out, j))
            },
        }
    }
}

fn p_program(ts: &Vec<Token>, i: usize) -> (r: Result<Expr, (ParseErrorKind, RangedPos)>)
    requires
        i <= ts@.len(),
    ensures
        match r {
            Ok(e) => sp_program(toks_v(ts@), i as int) is Ok && e@ == sp_program(
                toks_v(ts@),
                i as int,
            )->Ok_0,
            Err(pe) => sp_program(toks_v(ts@), i as int) is Err && perr_v(pe) == sp_program(
                toks_v(ts@),
                i as int,
            )->Err_0,
        },
    decreases ts@.len() - i, 20int,
{
    match p_expr(ts, i) {
        Ok((e, j)) => {
            if j == ts.len() {
                Ok(e)
            } else {
                Err(mk_err("end of input", ts, j))
            }
        },
        Err(e) => Err(e),
    }
}

/// The parser: a token cursor plus the source text, kept for error
/// rendering.
pub struct Parser {
    pub tokens: TokensIterator,
    pub code: String,
}

impl Parser {
    pub fn new(tokens: TokensIterator, code: &str) -> (r: Self)
        ensures
            r.tokens == tokens,
            r.code@ == code@,
    {
        Parser { tokens, code: String::from_str(code) }
    }

    /// Parse one whole program from the remaining tokens. On success the
    /// tree is exactly what the spec parser yields and the cursor has
    /// consumed every token; on failure the error is the spec parser's,
    /// and the cursor has not moved.
    pub fn parse(&mut self) -> (r: Result<Expr, ParseError>)
        requires
            old(self).tokens.wf(),
        ensures
            final(self).tokens.tokens == old(self).tokens.tokens,
            final(self).code == old(self).code,
            final(self).tokens.wf(),
            match r {
                Ok(e) => {
                    &&& sp_program(
                        toks_v(old(self).tokens.tokens@),
                        old(self).tokens.current as int,
                    ) is Ok
                    &&& e@ == sp_program(
                        toks_v(old(self).tokens.tokens@),
                        old(self).tokens.current as int,
                    )->Ok_0
                    &&& final(self).tokens.current == final(self).tokens.tokens@.len()
                },
                Err(pe) => {
                    &&& sp_program(
                        toks_v(old(self).tokens.tokens@),
                        old(self).tokens.current as int,
                    ) is Err
                    &&& pe@ == sp_program(
                        toks_v(old(self).tokens.tokens@),
                        old(self).tokens.current as int,
                    )->Err_0
                    &&& pe.code@ == old(self).code@
                    &&& final(self).tokens.current == old(self).tokens.current
                },
            },
    {
        let r0 = p_program(&self.tokens.tokens, self.tokens.current);
        match r0 {
            Ok(e) => {
                self.tokens.current = self.tokens.tokens.len();
                Ok(e)
            },
            Err((kind, pos)) => Err(ParseError::new(kind, pos, self.code.as_str())),
        }
    }
}

} // verus!
