//! Lexical and syntax errors, and the formatter that renders either as a
//! file/line/source-line/caret diagnostic.

use crate::tokens::{SpecTokenKind, TokenKind};
use crate::utils::{get_line, spec_line, spec_line_start, RangedPos, SpecPos};
use vstd::prelude::*;

verus! {

/// What went wrong while tokenizing. `UnclosedDelimiter` is reserved for
/// future quoted-literal support; the current grammar never produces it.
#[derive(Debug, Clone, Copy, PartialEq, Eq, Structural)]
pub enum LexErrorKind {
    UnexpectedChar(char),
    UnclosedDelimiter(char),
}

/// Spec-level counterpart of [`LexError`]: its kind and position. The
/// carried source text is related to the lexer's input separately.
pub struct SpecLexError {
    pub kind: LexErrorKind,
    pub pos: SpecPos,
}

/// A lexical error: its kind, the position of the offending character,
/// and the full source text, kept for rendering the diagnostic.
#[derive(Debug, Clone, PartialEq, Eq)]
pub struct LexError {
    pub kind: LexErrorKind,
    pub code: String,
    pub pos: RangedPos,
}

impl View for LexError {
    type V = SpecLexError;

    open spec fn view(&self) -> SpecLexError {
        SpecLexError { kind: self.kind, pos: self.pos@ }
    }
}

/// What went wrong while parsing: a description of what was expected and
/// the token kind actually found.
#[derive(Debug, Clone, PartialEq, Eq)]
pub enum ParseErrorKind {
    ExpectedFound(String, TokenKind),
}

/// Spec-level counterpart of a syntax error: the expected-production
/// description, the token kind found, and the position reported.
pub struct SpecParseError {
    pub desc: Seq<char>,
    pub found: SpecTokenKind,
    pub pos: SpecPos,
}

/// A syntax error: its kind, the position of the offending token, and
/// the full source text, kept for rendering the diagnostic.
#[derive(Debug, Clone, PartialEq, Eq)]
pub struct ParseError {
    pub kind: ParseErrorKind,
    pub code: String,
    pub pos: RangedPos,
}

impl View for ParseError {
    type V = SpecParseError;

    open spec fn view(&self) -> SpecParseError {
        match self.kind {
            ParseErrorKind::ExpectedFound(desc, found) => SpecParseError {
                desc: desc@,
                found: found@,
                pos: self.pos@,
            },
        }
    }
}

impl ParseError {
    pub fn new(kind: ParseErrorKind, pos: RangedPos, code: &str) -> (r: Self)
        ensures
            r.kind == kind,
            r.pos == pos,
            r.code@ == code@,
    {
        ParseError { kind, pos, code: String::from_str(code) }
    }
}

/// Relies on String::push: appends exactly the given character.
#[verifier::external_body]
fn push_char(s: &mut String, c: char)
    ensures
        final(s)@ == old(s)@.push(c),
{
    s.push(c);
}

/// The display message of a lexical error kind.
pub open spec fn lex_msg(kind: LexErrorKind) -> Seq<char> {
    match kind {
        LexErrorKind::UnexpectedChar(c) => "Unexpected char `"@ + seq![c] + "`"@,
        LexErrorKind::UnclosedDelimiter(c) => "Unclosed delimiter `"@ + seq![c] + "`"@,
    }
}

/// How a token kind reads in a diagnostic.
pub open spec fn kind_text(k: SpecTokenKind) -> Seq<char> {
    match k {
        SpecTokenKind::Num(_) => "a number"@,
        SpecTokenKind::Bool(_) => "a boolean"@,
        SpecTokenKind::Ident(_) => "an identifier"@,
        SpecTokenKind::Add => "`+`"@,
        SpecTokenKind::Minus => "`-`"@,
        SpecTokenKind::Mul => "`*`"@,
        SpecTokenKind::Div => "`/`"@,
        SpecTokenKind::Eof => "the end of input"@,
        SpecTokenKind::Semicolon => "`;`"@,
        SpecTokenKind::Colon => "`:`"@,
        SpecTokenKind::Comma => "`,`"@,
        SpecTokenKind::Return => "`return`"@,
        SpecTokenKind::Fn => "`fn`"@,
        SpecTokenKind::Bang => "`!`"@,
        SpecTokenKind::Eq => "`=`"@,
        SpecTokenKind::BangEq => "`!=`"@,
        SpecTokenKind::EqEq => "`==`"@,
        SpecTokenKind::LBracket => "`{`"@,
        SpecTokenKind::RBracket => "`}`"@,
        SpecTokenKind::LParen => "`(`"@,
        SpecTokenKind::RParen => "`)`"@,
    }
}

/// The display message of a syntax error kind.
pub open spec fn parse_msg(desc: Seq<char>, found: SpecTokenKind) -> Seq<char> {
    "Expected "@ + desc + ", found "@ + kind_text(found)
}

/// The decimal digit character for a value below ten.
pub open spec fn digit_char(d: nat) -> char {
    if d == 0 {
        '0'
    } else if d == 1 {
        '1'
    } else if d == 2 {
        '2'
    } else if d == 3 {
        '3'
    } else if d == 4 {
        '4'
    } else if d == 5 {
        '5'
    } else if d == 6 {
        '6'
    } else if d == 7 {
        '7'
    } else if d == 8 {
        '8'
    } else {
        '9'
    }
}

/// The decimal representation of a number, most significant digit first.
pub open spec fn dec_rep(n: nat) -> Seq<char>
    decreases n,
{
    if n < 10 {
        seq![digit_char(n)]
    } else {
        dec_rep(n / 10).push(digit_char(n % 10))
    }
}

/// `n` copies of one character.
pub open spec fn repeat_char(c: char, n: nat) -> Seq<char>
    decreases n,
{
    if n == 0 {
        Seq::<char>::empty()
    } else {
        repeat_char(c, (n - 1) as nat).push(c)
    }
}

fn digit_char_exec(d: usize) -> (c: char)
    requires
        d < 10,
    ensures
        c == digit_char(d as nat),
{
    if d == 0 {
        '0'
    } else if d == 1 {
        '1'
    } else if d == 2 {
        '2'
    } else if d == 3 {
        '3'
    } else if d == 4 {
        '4'
    } else if d == 5 {
        '5'
    } else if d == 6 {
        '6'
    } else if d == 7 {
        '7'
    } else if d == 8 {
        '8'
    } else {
        '9'
    }
}

/// A number written in decimal.
fn num_string(n: usize) -> (r: String)
    ensures
        r@ == dec_rep(n as nat),
    decreases n,
{
    if n < 10 {
        let mut s = String::new();
        push_char(&mut s, digit_char_exec(n));
        proof {
            assert(s@ =~= seq![digit_char(n as nat)]);
        }
        s
    } else {
        let mut s = num_string(n / 10);
        push_char(&mut s, digit_char_exec(n % 10));
        s
    }
}

/// A run of `n` copies of `c`.
fn repeat_string(c: char, n: usize) -> (r: String)
    ensures
        r@ == repeat_char(c, n as nat),
{
    let mut s = String::new();
    let mut i: usize = 0;
    proof {
        assert(s@ =~= repeat_char(c, 0));
    }
    while i < n
        invariant
            i <= n,
            s@ == repeat_char(c, i as nat),
        decreases n - i,
    {
        push_char(&mut s, c);
        i = i + 1;
    }
    s
}

impl LexErrorKind {
    /// The display message for this error kind.
    pub fn message(&self) -> (r: String)
        ensures
            r@ == lex_msg(*self),
    {
        match self {
            LexErrorKind::UnexpectedChar(c) => {
                let mut s = String::from_str("Unexpected char `");
                push_char(&mut s, *c);
                s.append("`");
                proof {
                    assert(s@ =~= lex_msg(*self));
                }
                s
            },
            LexErrorKind::UnclosedDelimiter(c) => {
                let mut s = String::from_str("Unclosed delimiter `");
                push_char(&mut s, *c);
                s.append("`");
                proof {
                    assert(s@ =~= lex_msg(*self));
                }
                s
            },
        }
    }
}

/// How a token kind reads in a diagnostic.
pub fn kind_name(k: &TokenKind) -> (r: String)
    ensures
        r@ == kind_text(k@),
{
    match k {
        TokenKind::Num(_) => String::from_str("a number"),
        TokenKind::Bool(_) => String::from_str("a boolean"),
        TokenKind::Ident(_) => String::from_str("an identifier"),
        TokenKind::Add => String::from_str("`+`"),
        TokenKind::Minus => String::from_str("`-`"),
        TokenKind::Mul => String::from_str("`*`"),
        TokenKind::Div => String::from_str("`/`"),
        TokenKind::Eof => String::from_str("the end of input"),
        TokenKind::Semicolon => String::from_str("`;`"),
        TokenKind::Colon => String::from_str("`:`"),
        TokenKind::Comma => String::from_str("`,`"),
        TokenKind::Return => String::from_str("`return`"),
        TokenKind::Fn => String::from_str("`fn`"),
        TokenKind::Bang => String::from_str("`!`"),
        TokenKind::Eq => String::from_str("`=`"),
        TokenKind::BangEq => String::from_str("`!=`"),
        TokenKind::EqEq => String::from_str("`==`"),
        TokenKind::LBracket => String::from_str("`{`"),
        TokenKind::RBracket => String::from_str("`}`"),
        TokenKind::LParen => String::from_str("`(`"),
        TokenKind::RParen => String::from_str("`)`"),
    }
}

impl ParseErrorKind {
    /// The display message for this error kind.
    pub fn message(&self) -> (r: String)
        ensures
            match *self {
                ParseErrorKind::ExpectedFound(desc, found) => r@ == parse_msg(desc@, found@),
            },
    {
        match self {
            ParseErrorKind::ExpectedFound(desc, found) => {
                let mut s = String::from_str("Expected ");
                s.append(desc.as_str());
                s.append(", found ");
                let kn = kind_name(found);
                s.append(kn.as_str());
                proof {
                    assert(s@ =~= parse_msg(desc@, found@));
                }
                s
            },
        }
    }
}

/// The position names a line that the source text really has, with a
/// 1-based column; rendering a diagnostic indexes that line.
pub open spec fn renderable(pos: SpecPos, code: Seq<char>) -> bool {
    pos.line >= 1 && pos.char_ >= 1 && spec_line_start(code, (pos.line - 1) as nat) < code.len()
}

/// Render a diagnostic: the file label, the 1-based line number with the
/// exact text of that source line, a caret underline starting after
/// `column - 1` spaces and as wide as the span, and the display message.
pub fn format_err(file: &str, code: &str, pos: RangedPos, msg: &str) -> (r: String)
    requires
        renderable(pos@, code@),
    ensures
        r@ == format_err_text(file@, code@, pos@, msg@),
{
    let mut s = String::from_str("Error: ");
    s.append(file);
    s.append("\n");
    let ln = num_string(pos.line);
    s.append(ln.as_str());
    s.append("| ");
    let line_txt = match get_line(pos.line - 1, code) {
        Some(t) => t,
        None => {
            proof {
                assert(false);
            }
            ""
        },
    };
    s.append(line_txt);
    s.append("\n");
    let sp = repeat_string(' ', pos.char_ - 1);
    s.append(sp.as_str());
    let car = repeat_string('^', pos.width);
    s.append(car.as_str());
    s.append("\n");
    s.append(msg);
    proof {
        assert(s@ =~= format_err_text(file@, code@, pos@, msg@));
    }
    s
}

/// The rendered diagnostic, as a sequence of characters.
pub open spec fn format_err_text(
    file: Seq<char>,
    code: Seq<char>,
    pos: SpecPos,
    msg: Seq<char>,
) -> Seq<char> {
    "Error: "@ + file + "\n"@ + dec_rep(pos.line as nat) + "| "@ + spec_line(
        code,
        (pos.line - 1) as nat,
    ) + "\n"@ + repeat_char(' ', (pos.char_ - 1) as nat) + repeat_char('^', pos.width as nat)
        + "\n"@ + msg
}

impl LexError {
    /// The full diagnostic for this error, under the fixed file label of
    /// the driver.
    pub fn render(&self) -> (r: String)
        requires
            renderable(self.pos@, self.code@),
        ensures
            r@ == format_err_text("main.ka"@, self.code@, self.pos@, lex_msg(self.kind)),
    {
        let m = self.kind.message();
        format_err("main.ka", self.code.as_str(), self.pos, m.as_str())
    }
}

impl ParseError {
    /// The full diagnostic for this error, under the fixed file label of
    /// the driver.
    pub fn render(&self) -> (r: String)
        requires
            renderable(self.pos@, self.code@),
        ensures
            match self.kind {
                ParseErrorKind::ExpectedFound(desc, found) => r@ == format_err_text(
                    "main.ka"@,
                    self.code@,
                    self.pos@,
                    parse_msg(desc@, found@),
                ),
            },
    {
        let m = self.kind.message();
        format_err("main.ka", self.code.as_str(), self.pos, m.as_str())
    }
}

} // verus!
