use ka_front::lexer::Lexer;
use ka_front::tokens::{Token, TokenKind};
use ka_front::errors::LexErrorKind;

fn lex(src: &str) -> Vec<Token> {
    Lexer::new(src).tokenize().expect("expected the source to tokenize")
}

fn kinds(toks: &[Token]) -> Vec<TokenKind> {
    toks.iter().map(|t| t.kind.clone()).collect()
}

#[test]
fn num_and_bang_eq() {
    // "152 != 5" yields exactly Num(152), BangEq, Num(5).
    let toks = lex("152 != 5");
    assert_eq!(
        kinds(&toks),
        vec![TokenKind::Num(152), TokenKind::BangEq, TokenKind::Num(5)]
    );
    assert_eq!((toks[0].pos.line, toks[0].pos.char_, toks[0].pos.width), (1, 1, 3));
    assert_eq!((toks[1].pos.line, toks[1].pos.char_, toks[1].pos.width), (1, 5, 2));
    assert_eq!((toks[2].pos.line, toks[2].pos.char_, toks[2].pos.width), (1, 8, 1));
}

#[test]
fn punct_lexemes_one_token_each() {
    // A source of nothing but punctuation lexemes: one token per lexeme,
    // left to right, each at the column where its lexeme starts.
    let toks = lex("(){};:,+-*/==!=");
    let expected = vec![
        TokenKind::LParen,
        TokenKind::RParen,
        TokenKind::LBracket,
        TokenKind::RBracket,
        TokenKind::Semicolon,
        TokenKind::Colon,
        TokenKind::Comma,
        TokenKind::Add,
        TokenKind::Minus,
        TokenKind::Mul,
        TokenKind::Div,
        TokenKind::EqEq,
        TokenKind::BangEq,
    ];
    assert_eq!(kinds(&toks), expected);
    let cols: Vec<usize> = toks.iter().map(|t| t.pos.char_).collect();
    assert_eq!(cols, vec![1, 2, 3, 4, 5, 6, 7, 8, 9, 10, 11, 12, 14]);
    let widths: Vec<usize> = toks.iter().map(|t| t.pos.width).collect();
    assert_eq!(widths, vec![1, 1, 1, 1, 1, 1, 1, 1, 1, 1, 1, 2, 2]);
    assert!(toks.iter().all(|t| t.pos.line == 1));
}

#[test]
fn unexpected_char_fails_with_position() {
    // '@' is no lexeme: tokenizing stops there, with 1-based line/column.
    let err = Lexer::new("12 +\n @ 5").tokenize().unwrap_err();
    assert_eq!(err.kind, LexErrorKind::UnexpectedChar('@'));
    assert_eq!(err.pos.line, 2);
    assert_eq!(err.pos.char_, 2);
    assert_eq!(err.pos.width, 1);
    assert_eq!(err.code, "12 +\n @ 5");
}

#[test]
fn lexing_is_deterministic() {
    let src = "fn add(a){ a + 152 != 5; True }";
    let once = lex(src);
    let again = lex(src);
    assert_eq!(once, again);
}

#[test]
fn keywords_and_identifiers() {
    let toks = lex("fn return True False foo f1n");
    assert_eq!(
        kinds(&toks),
        vec![
            TokenKind::Fn,
            TokenKind::Return,
            TokenKind::Bool(true),
            TokenKind::Bool(false),
            TokenKind::Ident("foo".to_string()),
            TokenKind::Ident("f1n".to_string()),
        ]
    );
}

#[test]
fn comma_is_its_own_token() {
    let toks = lex(",;");
    assert_eq!(kinds(&toks), vec![TokenKind::Comma, TokenKind::Semicolon]);
}

#[test]
fn single_bang_and_eq() {
    let toks = lex("! = == !=");
    assert_eq!(
        kinds(&toks),
        vec![TokenKind::Bang, TokenKind::Eq, TokenKind::EqEq, TokenKind::BangEq]
    );
}

#[test]
fn newlines_advance_lines() {
    let toks = lex("a\n bc\n\n5");
    assert_eq!((toks[0].pos.line, toks[0].pos.char_), (1, 1));
    assert_eq!((toks[1].pos.line, toks[1].pos.char_, toks[1].pos.width), (2, 2, 2));
    assert_eq!((toks[2].pos.line, toks[2].pos.char_), (4, 1));
}

#[test]
fn empty_source_has_no_tokens() {
    assert_eq!(lex(""), vec![]);
    assert_eq!(lex("  \t \r\n "), vec![]);
}
