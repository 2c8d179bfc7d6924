use ka_front::errors::{format_err, LexErrorKind, ParseErrorKind};
use ka_front::lexer::Lexer;
use ka_front::parser::Parser;
use ka_front::tokens::{TokenKind, TokensIterator};
use ka_front::utils::{get_line, Pos, RangedPos};

#[test]
fn get_line_splits_on_newlines() {
    assert_eq!(get_line(0, "ab\ncd"), Some("ab"));
    assert_eq!(get_line(1, "ab\ncd"), Some("cd"));
    assert_eq!(get_line(2, "ab\ncd"), None);
    assert_eq!(get_line(0, ""), None);
    assert_eq!(get_line(0, "abc\n"), Some("abc"));
    assert_eq!(get_line(1, "abc\n"), None);
    assert_eq!(get_line(1, "a\n\nb"), Some(""));
    assert_eq!(get_line(2, "a\n\nb"), Some("b"));
}

#[test]
fn position_tracker_moves_by_characters_and_lines() {
    let mut pos = Pos::default();
    assert_eq!((pos.line, pos.char_), (1, 1));
    pos.advance();
    pos.advance();
    assert_eq!((pos.line, pos.char_), (1, 3));
    pos.newline();
    assert_eq!((pos.line, pos.char_), (2, 1));
    let ranged = pos.into_ranged(4, 6);
    assert_eq!(ranged, RangedPos { line: 2, char_: 1, width: 3 });
}

#[test]
fn lex_error_messages() {
    assert_eq!(
        LexErrorKind::UnexpectedChar('@').message(),
        "Unexpected char `@`"
    );
    assert_eq!(
        LexErrorKind::UnclosedDelimiter('"').message(),
        "Unclosed delimiter `\"`"
    );
}

#[test]
fn parse_error_messages() {
    let kind = ParseErrorKind::ExpectedFound("an expression".to_string(), TokenKind::Semicolon);
    assert_eq!(kind.message(), "Expected an expression, found `;`");
    let kind = ParseErrorKind::ExpectedFound("end of input".to_string(), TokenKind::Num(5));
    assert_eq!(kind.message(), "Expected end of input, found a number");
}

#[test]
fn format_err_layout() {
    let rendered = format_err(
        "main.ka",
        "a @ b",
        RangedPos { line: 1, char_: 3, width: 1 },
        "boom",
    );
    assert_eq!(rendered, "Error: main.ka\n1| a @ b\n  ^\nboom");
}

#[test]
fn lex_error_renders_with_caret_under_the_char() {
    let err = Lexer::new("12 +\n @ 5").tokenize().unwrap_err();
    assert_eq!(
        err.render(),
        "Error: main.ka\n2|  @ 5\n ^\nUnexpected char `@`"
    );
}

#[test]
fn parse_error_renders_with_line_number() {
    let src = "5 +\n* 3";
    let toks = Lexer::new(src).tokenize().unwrap();
    let err = Parser::new(TokensIterator::new(toks), src).parse().unwrap_err();
    assert_eq!(
        err.render(),
        "Error: main.ka\n2| * 3\n^\nExpected an expression, found `*`"
    );
}

#[test]
fn multi_digit_line_numbers_render_in_decimal() {
    let src = "\n\n\n\n\n\n\n\n\n\n12 @";
    let err = Lexer::new(src).tokenize().unwrap_err();
    assert_eq!(err.pos.line, 11);
    assert_eq!(
        err.render(),
        "Error: main.ka\n11| 12 @\n   ^\nUnexpected char `@`"
    );
}

#[test]
fn token_cursor_peeks_one_token_and_advances() {
    let toks = Lexer::new("1 + 2").tokenize().unwrap();
    let mut it = TokensIterator::new(toks);
    let (k, p) = it.peek().unwrap();
    assert_eq!(k, TokenKind::Num(1));
    assert_eq!(p.char_, 1);
    // Peek does not advance.
    assert_eq!(it.peek().unwrap().0, TokenKind::Num(1));
    it.advance();
    assert_eq!(it.peek().unwrap().0, TokenKind::Add);
    let (k, _) = it.next().unwrap();
    assert_eq!(k, TokenKind::Add);
    assert_eq!(it.next().unwrap().0, TokenKind::Num(2));
    assert!(it.peek().is_none());
    assert!(it.next().is_none());
}
