use ka_front::ast::{BinOp, Expr, FunctionDecl, Lit, Statement, StmtExpr, UnOp, VarDecl};
use ka_front::errors::{ParseError, ParseErrorKind};
use ka_front::lexer::Lexer;
use ka_front::parser::Parser;
use ka_front::tokens::{TokenKind, TokensIterator};

fn parse_src(src: &str) -> Result<Expr, ParseError> {
    let toks = Lexer::new(src).tokenize().expect("expected the source to tokenize");
    let mut parser = Parser::new(TokensIterator::new(toks), src);
    parser.parse()
}

fn parse_ok(src: &str) -> Expr {
    parse_src(src).expect("expected the source to parse")
}

fn expect_err(src: &str) -> (String, TokenKind) {
    let err = parse_src(src).expect_err("expected the source to be rejected");
    let ParseErrorKind::ExpectedFound(desc, found) = err.kind;
    (desc, found)
}

fn num(n: isize) -> Box<Expr> {
    Box::new(Expr::Lit(Lit::Num(n)))
}

#[test]
fn simple_expr() {
    let simple_addition = Expr::BinExpr {
        left: num(5),
        op: BinOp::Add,
        right: Box::new(Expr::BinExpr { left: num(158), op: BinOp::Mul, right: num(85) }),
    };
    let ast = parse_ok("5 + 158 * 85");
    assert_eq!(simple_addition, ast);

    let parenthesis = Expr::BinExpr {
        left: Box::new(Expr::BinExpr { left: num(5), op: BinOp::Add, right: num(158) }),
        op: BinOp::Mul,
        right: num(85),
    };
    let ast = parse_ok("(5 + 158) * 85");
    assert_eq!(parenthesis, ast);
}

#[test]
fn func_calls() {
    let empty_call = Expr::Ident("abc".to_string());
    let ast = parse_ok("abc");
    assert_eq!(empty_call, ast);

    let another_call = Expr::Call {
        fun: Box::new(Expr::Call {
            fun: Box::new(Expr::Ident("def".to_string())),
            param: Box::new(Expr::Lit(Lit::Bool(true))),
        }),
        param: Box::new(Expr::BinExpr { left: num(1), op: BinOp::Add, right: num(2) }),
    };
    // The two surface forms of the same curried application.
    let ast = parse_ok("def(True, 1 + 2)");
    assert_eq!(another_call, ast);
    let ast = parse_ok("def(True)(1 + 2)");
    assert_eq!(another_call, ast);
}

#[test]
fn var_decls() {
    // The canonical token set has no keyword that introduces a variable
    // declaration, so the node exists only as a constructed value.
    let decl = Statement::VarDecl(VarDecl {
        name: "x".to_string(),
        fun: Box::new(Expr::Fun {
            param: "y".to_string(),
            body: Box::new(Expr::Ident("y".to_string())),
        }),
    });
    assert_eq!(
        decl,
        Statement::VarDecl(VarDecl {
            name: "x".to_string(),
            fun: Box::new(Expr::Fun {
                param: "y".to_string(),
                body: Box::new(Expr::Ident("y".to_string())),
            }),
        })
    );
}

#[test]
fn func_decls() {
    let expected = Expr::Instructions {
        left: Box::new(StmtExpr::Stmt(Statement::FunDecl(FunctionDecl {
            name: "id".to_string(),
            fun: Box::new(Expr::Fun {
                param: "x".to_string(),
                body: Box::new(Expr::Ident("x".to_string())),
            }),
        }))),
        right: Box::new(StmtExpr::Expr(Expr::Lit(Lit::Unit))),
    };
    let ast = parse_ok("fn id(x){ x }");
    assert_eq!(expected, ast);
}

#[test]
fn equality_binds_loosest_of_operators() {
    let expected = Expr::BinExpr {
        left: Box::new(Expr::BinExpr { left: num(1), op: BinOp::Add, right: num(2) }),
        op: BinOp::NotEqual,
        right: num(4),
    };
    assert_eq!(expected, parse_ok("1 + 2 != 4"));
    let expected = Expr::BinExpr { left: num(1), op: BinOp::Equal, right: num(1) };
    assert_eq!(expected, parse_ok("1 == 1"));
}

#[test]
fn left_associative_folds() {
    let expected = Expr::BinExpr {
        left: Box::new(Expr::BinExpr { left: num(1), op: BinOp::Sub, right: num(2) }),
        op: BinOp::Add,
        right: num(3),
    };
    assert_eq!(expected, parse_ok("1 - 2 + 3"));
    let expected = Expr::BinExpr {
        left: Box::new(Expr::BinExpr { left: num(8), op: BinOp::Div, right: num(4) }),
        op: BinOp::Mul,
        right: num(2),
    };
    assert_eq!(expected, parse_ok("8 / 4 * 2"));
}

#[test]
fn unary_operators() {
    let expected = Expr::BinExpr {
        left: Box::new(Expr::UnExpr { op: UnOp::Negate, val: num(5) }),
        op: BinOp::Mul,
        right: num(3),
    };
    assert_eq!(expected, parse_ok("-5 * 3"));
    let expected = Expr::UnExpr {
        op: UnOp::Not,
        val: Box::new(Expr::UnExpr { op: UnOp::Not, val: Box::new(Expr::Lit(Lit::Bool(true))) }),
    };
    assert_eq!(expected, parse_ok("!!True"));
}

#[test]
fn unit_literal_and_empty_call() {
    assert_eq!(Expr::Lit(Lit::Unit), parse_ok("()"));
    // An empty argument list leaves the callee untouched.
    assert_eq!(Expr::Ident("f".to_string()), parse_ok("f()"));
}

#[test]
fn sequencing_folds_left_and_pads_with_unit() {
    let expected = Expr::Instructions {
        left: Box::new(StmtExpr::Expr(Expr::Lit(Lit::Num(1)))),
        right: Box::new(StmtExpr::Expr(Expr::Lit(Lit::Num(2)))),
    };
    assert_eq!(expected, parse_ok("1; 2"));

    let expected = Expr::Instructions {
        left: Box::new(StmtExpr::Expr(Expr::Instructions {
            left: Box::new(StmtExpr::Expr(Expr::Lit(Lit::Num(1)))),
            right: Box::new(StmtExpr::Expr(Expr::Lit(Lit::Num(2)))),
        })),
        right: Box::new(StmtExpr::Expr(Expr::Lit(Lit::Num(3)))),
    };
    assert_eq!(expected, parse_ok("1; 2; 3"));

    let expected = Expr::Instructions {
        left: Box::new(StmtExpr::Expr(Expr::Lit(Lit::Num(1)))),
        right: Box::new(StmtExpr::Expr(Expr::Lit(Lit::Unit))),
    };
    assert_eq!(expected, parse_ok("1;"));
}

#[test]
fn return_statements_in_sequences() {
    let expected = Expr::Instructions {
        left: Box::new(StmtExpr::Stmt(Statement::Return(Expr::Lit(Lit::Num(5))))),
        right: Box::new(StmtExpr::Expr(Expr::Lit(Lit::Num(6)))),
    };
    assert_eq!(expected, parse_ok("return 5; 6"));

    let expected = Expr::Instructions {
        left: Box::new(StmtExpr::Stmt(Statement::Return(Expr::Lit(Lit::Num(5))))),
        right: Box::new(StmtExpr::Expr(Expr::Lit(Lit::Unit))),
    };
    assert_eq!(expected, parse_ok("return 5"));
}

#[test]
fn parenthesized_sequences() {
    let expected = Expr::BinExpr {
        left: Box::new(Expr::Instructions {
            left: Box::new(StmtExpr::Expr(Expr::Lit(Lit::Num(1)))),
            right: Box::new(StmtExpr::Expr(Expr::Lit(Lit::Num(2)))),
        }),
        op: BinOp::Add,
        right: num(3),
    };
    assert_eq!(expected, parse_ok("(1; 2) + 3"));
}

#[test]
fn successful_parse_consumes_every_token() {
    let src = "fn twice(f){ f(f(1)) }; twice";
    let toks = Lexer::new(src).tokenize().unwrap();
    let count = toks.len();
    let mut parser = Parser::new(TokensIterator::new(toks), src);
    assert!(parser.parse().is_ok());
    assert_eq!(parser.tokens.current, count);
}

#[test]
fn leftover_tokens_are_an_error() {
    let (desc, found) = expect_err("5 5");
    assert_eq!(desc, "end of input");
    assert_eq!(found, TokenKind::Num(5));
}

#[test]
fn missing_operand_is_an_error() {
    let (desc, found) = expect_err("5 +");
    assert_eq!(desc, "an expression");
    assert_eq!(found, TokenKind::Eof);
    let (desc, found) = expect_err("1;;2");
    assert_eq!(desc, "an expression");
    assert_eq!(found, TokenKind::Semicolon);
    let (desc, _) = expect_err("");
    assert_eq!(desc, "an expression");
}

#[test]
fn unclosed_parenthesis_is_an_error() {
    let (desc, found) = expect_err("(5");
    assert_eq!(desc, "an enclosing parenthesis");
    assert_eq!(found, TokenKind::Eof);
    let (desc, found) = expect_err("f(1 2)");
    assert_eq!(desc, "an enclosing parenthesis");
    assert_eq!(found, TokenKind::Num(2));
}

#[test]
fn malformed_declarations_are_errors() {
    let (desc, found) = expect_err("fn (x){ x }");
    assert_eq!(desc, "a function name");
    assert_eq!(found, TokenKind::LParen);
    let (desc, _) = expect_err("fn f x){ x }");
    assert_eq!(desc, "an opening parenthesis");
    let (desc, _) = expect_err("fn f(5){ x }");
    assert_eq!(desc, "a parameter name");
    let (desc, _) = expect_err("fn f(x{ x }");
    assert_eq!(desc, "an enclosing parenthesis");
    let (desc, _) = expect_err("fn f(x) x }");
    assert_eq!(desc, "an opening brace");
    let (desc, found) = expect_err("fn f(x){ x ");
    assert_eq!(desc, "a closing brace");
    assert_eq!(found, TokenKind::Eof);
}

#[test]
fn error_position_is_the_lookahead_token() {
    let err = parse_src("5 +\n* 3").unwrap_err();
    let ParseErrorKind::ExpectedFound(desc, found) = &err.kind;
    assert_eq!(desc.as_str(), "an expression");
    assert_eq!(*found, TokenKind::Mul);
    assert_eq!(err.pos.line, 2);
    assert_eq!(err.pos.char_, 1);
    assert_eq!(err.code, "5 +\n* 3");
}

#[test]
fn call_on_parenthesized_callee() {
    let expected = Expr::Call {
        fun: Box::new(Expr::Ident("f".to_string())),
        param: Box::new(Expr::Lit(Lit::Num(1))),
    };
    assert_eq!(expected, parse_ok("(f)(1)"));
}

#[test]
fn nested_declarations() {
    let inner = Expr::Instructions {
        left: Box::new(StmtExpr::Stmt(Statement::FunDecl(FunctionDecl {
            name: "g".to_string(),
            fun: Box::new(Expr::Fun {
                param: "y".to_string(),
                body: Box::new(Expr::Ident("y".to_string())),
            }),
        }))),
        right: Box::new(StmtExpr::Expr(Expr::Ident("g".to_string()))),
    };
    let expected = Expr::Instructions {
        left: Box::new(StmtExpr::Stmt(Statement::FunDecl(FunctionDecl {
            name: "f".to_string(),
            fun: Box::new(Expr::Fun { param: "x".to_string(), body: Box::new(inner) }),
        }))),
        right: Box::new(StmtExpr::Expr(Expr::Lit(Lit::Unit))),
    };
    assert_eq!(expected, parse_ok("fn f(x){ fn g(y){ y }; g }"));
}

#[test]
fn stray_colon_is_an_error() {
    let (desc, found) = expect_err("1 + :");
    assert_eq!(desc, "an expression");
    assert_eq!(found, TokenKind::Colon);
}

#[test]
fn large_literals_within_machine_range() {
    let ast = parse_ok("9223372036854775807");
    assert_eq!(Expr::Lit(Lit::Num(isize::MAX)), ast);
}
