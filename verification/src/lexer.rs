//! The lexer: scans source text left to right with one character of
//! lookahead and produces a position-tagged token stream, or a lexical
//! error at the first unrecognized character.
//!
//! The executable lexer is proved to return exactly what the spec-level
//! scanner [`spec_lex`] yields, so the token stream is a mathematical
//! function of the source text.

use crate::errors::{LexError, LexErrorKind, SpecLexError};
use crate::tokens::{toks_v, SpecToken, SpecTokenKind, Token, TokenKind};
use crate::utils::{Pos, SpecPos};
use vstd::prelude::*;

verus! {

pub open spec fn is_digit_c(c: char) -> bool {
    '0' <= c && c <= '9'
}

pub open spec fn is_alpha_c(c: char) -> bool {
    ('a' <= c && c <= 'z') || ('A' <= c && c <= 'Z')
}

pub open spec fn is_alnum_c(c: char) -> bool {
    is_digit_c(c) || is_alpha_c(c)
}

/// ASCII whitespace other than newline: skipped without emitting a token.
pub open spec fn is_blank_c(c: char) -> bool {
    c == ' ' || c == '\t' || c == '\r' || c == '\x0c'
}

/// The characters that form single-character punctuation tokens.
pub open spec fn is_punct_c(c: char) -> bool {
    c == '(' || c == ')' || c == '{' || c == '}' || c == '+' || c == '-' || c == '*' || c == '/'
        || c == ':' || c == ';' || c == ','
}

/// The token kind of a single punctuation character.
pub open spec fn punct_kind(c: char) -> SpecTokenKind {
    if c == '(' {
        SpecTokenKind::LParen
    } else if c == ')' {
        SpecTokenKind::RParen
    } else if c == '{' {
        SpecTokenKind::LBracket
    } else if c == '}' {
        SpecTokenKind::RBracket
    } else if c == '+' {
        SpecTokenKind::Add
    } else if c == '-' {
        SpecTokenKind::Minus
    } else if c == '*' {
        SpecTokenKind::Mul
    } else if c == '/' {
        SpecTokenKind::Div
    } else if c == ':' {
        SpecTokenKind::Colon
    } else if c == ';' {
        SpecTokenKind::Semicolon
    } else {
        SpecTokenKind::Comma
    }
}

pub open spec fn digit_val(c: char) -> int {
    c as int - '0' as int
}

/// The numeric value of a string of decimal digits.
pub open spec fn num_val(s: Seq<char>) -> int
    decreases s.len(),
{
    if s.len() == 0 {
        0
    } else {
        num_val(s.drop_last()) * 10 + digit_val(s.last())
    }
}

/// The digit character class, as a first-class predicate.
pub open spec fn digit_p() -> spec_fn(char) -> bool {
    |x: char| is_digit_c(x)
}

/// The alphanumeric character class, as a first-class predicate.
pub open spec fn alnum_p() -> spec_fn(char) -> bool {
    |x: char| is_alnum_c(x)
}

/// First index at or after `i` whose character fails `p`, or the text
/// length if every remaining character satisfies `p`.
pub open spec fn scan_end(s: Seq<char>, i: int, p: spec_fn(char) -> bool) -> int
    decreases s.len() - i,
{
    if 0 <= i && i < s.len() && p(s[i]) {
        scan_end(s, i + 1, p)
    } else {
        i
    }
}

/// A point with the properties of `scan_end` is `scan_end`.
pub proof fn lemma_scan_end_eq(s: Seq<char>, i: int, p: spec_fn(char) -> bool, j: int)
    requires
        0 <= i <= j <= s.len(),
        forall|k: int| i <= k < j ==> p(s[k]),
        j == s.len() || !p(s[j]),
    ensures
        scan_end(s, i, p) == j,
    decreases j - i,
{
    if i < j {
        lemma_scan_end_eq(s, i + 1, p, j);
    }
}

pub proof fn lemma_num_val_nonneg(s: Seq<char>)
    requires
        forall|k: int| 0 <= k < s.len() ==> is_digit_c(s[k]),
    ensures
        num_val(s) >= 0,
    decreases s.len(),
{
    if s.len() > 0 {
        lemma_num_val_nonneg(s.drop_last());
    }
}

/// Every all-digit segment of `s`, read as a decimal number, fits the
/// machine integer carried by a `Num` token. Sources with longer numbers
/// are outside the lexer's contract: a literal that overflows its token
/// is a defect of the input, not a reportable lexical error.
pub open spec fn nums_fit(s: Seq<char>) -> bool {
    forall|i: int, j: int|
        0 <= i <= j <= s.len() && (forall|k: int| i <= k < j ==> is_digit_c(#[trigger] s[k]))
            ==> num_val(#[trigger] s.subrange(i, j)) <= isize::MAX
}

/// Prepend a token to the result of lexing the rest of the text.
pub open spec fn lex_cons(
    t: SpecToken,
    rest: Result<Seq<SpecToken>, SpecLexError>,
) -> Result<Seq<SpecToken>, SpecLexError> {
    match rest {
        Ok(ts) => Ok(seq![t] + ts),
        Err(e) => Err(e),
    }
}

/// The spec-level scanner: the tokens of `s` from index `i` on, with the
/// next character standing at line `line`, column `col` (both 1-based),
/// or the first lexical error.
pub open spec fn spec_lex_from(s: Seq<char>, i: int, line: int, col: int) -> Result<
    Seq<SpecToken>,
    SpecLexError,
>
    decreases s.len() - i,
{
    if i < 0 || i >= s.len() {
        Ok(seq![])
    } else {
        let c = s[i];
        if is_digit_c(c) {
            let e0 = scan_end(s, i + 1, digit_p());
            let e = if e0 <= i || e0 > s.len() {
                i + 1
            } else {
                e0
            };
            lex_cons(
                SpecToken {
                    kind: SpecTokenKind::Num(num_val(s.subrange(i, e))),
                    pos: SpecPos { line, char_: col, width: e - i },
                },
                spec_lex_from(s, e, line, col + (e - i)),
            )
        } else if is_alpha_c(c) {
            let e0 = scan_end(s, i + 1, alnum_p());
            let e = if e0 <= i || e0 > s.len() {
                i + 1
            } else {
                e0
            };
            let text = s.subrange(i, e);
            let kind = if text == "fn"@ {
                SpecTokenKind::Fn
            } else if text == "return"@ {
                SpecTokenKind::Return
            } else if text == "True"@ {
                SpecTokenKind::Bool(true)
            } else if text == "False"@ {
                SpecTokenKind::Bool(false)
            } else {
                SpecTokenKind::Ident(text)
            };
            lex_cons(
                SpecToken { kind, pos: SpecPos { line, char_: col, width: e - i } },
                spec_lex_from(s, e, line, col + (e - i)),
            )
        } else if c == '\n' {
            spec_lex_from(s, i + 1, line + 1, 1)
        } else if is_blank_c(c) {
            spec_lex_from(s, i + 1, line, col + 1)
        } else if c == '!' || c == '=' {
            if i + 1 < s.len() && s[i + 1] == '=' {
                let kind = if c == '!' {
                    SpecTokenKind::BangEq
                } else {
                    SpecTokenKind::EqEq
                };
                lex_cons(
                    SpecToken { kind, pos: SpecPos { line, char_: col, width: 2 } },
                    spec_lex_from(s, i + 2, line, col + 2),
                )
            } else {
                let kind = if c == '!' {
                    SpecTokenKind::Bang
                } else {
                    SpecTokenKind::Eq
                };
                lex_cons(
                    SpecToken { kind, pos: SpecPos { line, char_: col, width: 1 } },
                    spec_lex_from(s, i + 1, line, col + 1),
                )
            }
        } else if is_punct_c(c) {
            lex_cons(
                SpecToken { kind: punct_kind(c), pos: SpecPos { line, char_: col, width: 1 } },
                spec_lex_from(s, i + 1, line, col + 1),
            )
        } else {
            Err(
                SpecLexError {
                    kind: LexErrorKind::UnexpectedChar(c),
                    pos: SpecPos { line, char_: col, width: 1 },
                },
            )
        }
    }
}

/// The tokens of a whole source text, or its first lexical error.
pub open spec fn spec_lex(s: Seq<char>) -> Result<Seq<SpecToken>, SpecLexError> {
    spec_lex_from(s, 0, 1, 1)
}

/// Append an already-lexed prefix in front of the outcome for the rest.
pub open spec fn lex_app(
    pre: Seq<SpecToken>,
    rest: Result<Seq<SpecToken>, SpecLexError>,
) -> Result<Seq<SpecToken>, SpecLexError> {
    match rest {
        Ok(ts) => Ok(pre + ts),
        Err(e) => Err(e),
    }
}

proof fn lemma_lex_app_cons(
    pre: Seq<SpecToken>,
    t: SpecToken,
    rest: Result<Seq<SpecToken>, SpecLexError>,
)
    ensures
        lex_app(pre, lex_cons(t, rest)) == lex_app(pre.push(t), rest),
{
    match rest {
        Ok(ts) => {
            assert(pre + (seq![t] + ts) =~= pre.push(t) + ts);
        },
        Err(_) => {},
    }
}

proof fn lemma_toks_v_push(ts: Seq<Token>, t: Token)
    ensures
        toks_v(ts.push(t)) == toks_v(ts).push(t@),
{
    assert(toks_v(ts.push(t)) =~= toks_v(ts).push(t@));
}

/// The lexer: owns a copy of the source text, both as a string (for
/// diagnostics and identifier text) and as its characters.
pub struct Lexer {
    code: String,
    chars: Vec<char>,
}

impl View for Lexer {
    type V = Seq<char>;

    closed spec fn view(&self) -> Seq<char> {
        self.code@
    }
}

impl Lexer {
    /// The character list mirrors the string, and the text is short
    /// enough that 1-based columns cannot exceed the machine word.
    pub closed spec fn wf(&self) -> bool {
        self.chars@ == self.code@ && self.code@.len() < usize::MAX
    }

    pub fn new(s: &str) -> (r: Lexer)
        requires
            s@.len() < usize::MAX,
        ensures
            r@ == s@,
            r.wf(),
    {
        let len = s.unicode_len();
        let mut chars: Vec<char> = Vec::new();
        let mut k: usize = 0;
        while k < len
            invariant
                k <= len,
                len == s@.len(),
                chars@ == s@.subrange(0, k as int),
            decreases len - k,
        {
            let c = s.get_char(k);
            chars.push(c);
            k = k + 1;
            proof {
                assert(chars@ =~= s@.subrange(0, k as int));
            }
        }
        proof {
            assert(s@.subrange(0, len as int) =~= s@);
        }
        Lexer { code: String::from_str(s), chars }
    }

    /// Scan the whole source: on success the tokens are exactly those of
    /// [`spec_lex`] on the source text; on failure the error is the one
    /// [`spec_lex`] names, and it carries the source text for rendering.
    pub fn tokenize(self) -> (r: Result<Vec<Token>, LexError>)
        requires
            self.wf(),
            nums_fit(self@),
        ensures
            (r is Ok) == (spec_lex(self@) is Ok),
            r is Ok ==> toks_v(r->Ok_0@) == spec_lex(self@)->Ok_0,
            r is Err ==> r->Err_0@ == spec_lex(self@)->Err_0 && r->Err_0.code@ == self@,
    {
        let Lexer { code, chars } = self;
        let ghost s = code@;
        let len = chars.len();
        let mut toks: Vec<Token> = Vec::new();
        let mut pos = Pos::default();
        let mut i: usize = 0;
        proof {
            assert(toks_v(toks@) =~= Seq::<SpecToken>::empty());
            match spec_lex_from(s, 0, 1, 1) {
                Ok(ts) => {
                    assert(Seq::<SpecToken>::empty() + ts =~= ts);
                },
                Err(_) => {},
            }
        }
        while i < len
            invariant
                i <= len,
                len == chars@.len(),
                chars@ == s,
                code@ == s,
                s == self@,
                s.len() < usize::MAX,
                nums_fit(s),
                1 <= pos.line <= i + 1,
                1 <= pos.char_ <= i + 1,
                spec_lex(s) == lex_app(
                    toks_v(toks@),
                    spec_lex_from(s, i as int, pos.line as int, pos.char_ as int),
                ),
            decreases len - i,
        {
            let ghost i0 = i as int;
            let ghost line0 = pos.line as int;
            let ghost col0 = pos.char_ as int;
            let start_pos = pos;
            let c = chars[i];
            pos.advance();
            if c >= '0' && c <= '9' {
                let mut j = i + 1;
                while j < len && chars[j] >= '0' && chars[j] <= '9'
                    invariant
                        i + 1 <= j <= len,
                        len == chars@.len(),
                        chars@ == s,
                        s.len() < usize::MAX,
                        forall|k: int| i0 + 1 <= k < j ==> is_digit_c(s[k]),
                        pos.line == start_pos.line,
                        pos.char_ == start_pos.char_ + (j - i0),
                        start_pos.char_ <= i0 + 1,
                        i == i0,
                    decreases len - j,
                {
                    j = j + 1;
                    pos.advance();
                }
                proof {
                    lemma_scan_end_eq(s, i0 + 1, digit_p(), j as int);
                    assert(forall|k: int| i0 <= k < j ==> is_digit_c(s[k]));
                }
                let mut acc: isize = 0;
                let mut k = i;
                proof {
                    assert(s.subrange(i0, i0) =~= Seq::<char>::empty());
                }
                while k < j
                    invariant
                        i <= k <= j <= len,
                        len == chars@.len(),
                        chars@ == s,
                        nums_fit(s),
                        i == i0,
                        forall|m: int| i0 <= m < j ==> is_digit_c(s[m]),
                        0 <= acc,
                        acc as int == num_val(s.subrange(i0, k as int)),
                    decreases j - k,
                {
                    let d = chars[k];
                    let ghost prefix = s.subrange(i0, k as int);
                    let ghost grown = s.subrange(i0, k as int + 1);
                    proof {
                        assert(grown.drop_last() =~= prefix);
                        assert(grown.last() == s[k as int]);
                        assert(num_val(grown) == acc as int * 10 + digit_val(s[k as int]));
                        assert(forall|m: int| 0 <= m < grown.len() ==> is_digit_c(#[trigger] grown[m]));
                        assert(num_val(grown) <= isize::MAX);
                        lemma_num_val_nonneg(grown);
                        assert('0' as int == 48);
                    }
                    let dv = (d as u32 - 48) as isize;
                    acc = acc * 10 + dv;
                    k = k + 1;
                }
                let tok = Token { kind: TokenKind::Num(acc), pos: start_pos.into_ranged(i, j - 1) };
                proof {
                    let rest = spec_lex_from(s, j as int, line0, col0 + (j - i0));
                    assert(spec_lex_from(s, i0, line0, col0) == lex_cons(tok@, rest));
                    lemma_lex_app_cons(toks_v(toks@), tok@, rest);
                    lemma_toks_v_push(toks@, tok);
                }
                toks.push(tok);
                i = j;
            } else if (c >= 'a' && c <= 'z') || (c >= 'A' && c <= 'Z') {
                let mut j = i + 1;
                while j < len && ((chars[j] >= '0' && chars[j] <= '9') || (chars[j] >= 'a'
                    && chars[j] <= 'z') || (chars[j] >= 'A' && chars[j] <= 'Z'))
                    invariant
                        i + 1 <= j <= len,
                        len == chars@.len(),
                        chars@ == s,
                        s.len() < usize::MAX,
                        forall|k: int| i0 + 1 <= k < j ==> is_alnum_c(s[k]),
                        pos.line == start_pos.line,
                        pos.char_ == start_pos.char_ + (j - i0),
                        start_pos.char_ <= i0 + 1,
                        i == i0,
                    decreases len - j,
                {
                    j = j + 1;
                    pos.advance();
                }
                proof {
                    lemma_scan_end_eq(s, i0 + 1, alnum_p(), j as int);
                }
                let text = code.as_str().substring_char(i, j).to_owned();
                let kind = if text == String::from_str("fn") {
                    TokenKind::Fn
                } else if text == String::from_str("return") {
                    TokenKind::Return
                } else if text == String::from_str("True") {
                    TokenKind::Bool(true)
                } else if text == String::from_str("False") {
                    TokenKind::Bool(false)
                } else {
                    TokenKind::Ident(text)
                };
                let tok = Token { kind, pos: start_pos.into_ranged(i, j - 1) };
                proof {
                    let rest = spec_lex_from(s, j as int, line0, col0 + (j - i0));
                    assert(spec_lex_from(s, i0, line0, col0) == lex_cons(tok@, rest));
                    lemma_lex_app_cons(toks_v(toks@), tok@, rest);
                    lemma_toks_v_push(toks@, tok);
                }
                toks.push(tok);
                i = j;
            } else if c == '\n' {
                pos.newline();
                i = i + 1;
            } else if c == ' ' || c == '\t' || c == '\r' || c == '\x0c' {
                i = i + 1;
            } else if c == '!' || c == '=' {
                if i + 1 < len && chars[i + 1] == '=' {
                    let kind = if c == '!' {
                        TokenKind::BangEq
                    } else {
                        TokenKind::EqEq
                    };
                    let tok = Token { kind, pos: start_pos.into_ranged(i, i + 1) };
                    pos.advance();
                    proof {
                        let rest = spec_lex_from(s, i0 + 2, line0, col0 + 2);
                        assert(spec_lex_from(s, i0, line0, col0) == lex_cons(tok@, rest));
                        lemma_lex_app_cons(toks_v(toks@), tok@, rest);
                        lemma_toks_v_push(toks@, tok);
                    }
                    toks.push(tok);
                    i = i + 2;
                } else {
                    let kind = if c == '!' {
                        TokenKind::Bang
                    } else {
                        TokenKind::Eq
                    };
                    let tok = Token { kind, pos: start_pos.into_ranged(i, i) };
                    proof {
                        let rest = spec_lex_from(s, i0 + 1, line0, col0 + 1);
                        assert(spec_lex_from(s, i0, line0, col0) == lex_cons(tok@, rest));
                        lemma_lex_app_cons(toks_v(toks@), tok@, rest);
                        lemma_toks_v_push(toks@, tok);
                    }
                    toks.push(tok);
                    i = i + 1;
                }
            } else if c == '(' || c == ')' || c == '{' || c == '}' || c == '+' || c == '-' || c
                == '*' || c == '/' || c == ':' || c == ';' || c == ',' {
                let kind = match c {
                    '(' => TokenKind::LParen,
                    ')' => TokenKind::RParen,
                    '{' => TokenKind::LBracket,
                    '}' => TokenKind::RBracket,
                    '+' => TokenKind::Add,
                    '-' => TokenKind::Minus,
                    '*' => TokenKind::Mul,
                    '/' => TokenKind::Div,
                    ':' => TokenKind::Colon,
                    ';' => TokenKind::Semicolon,
                    _ => TokenKind::Comma,
                };
                let tok = Token { kind, pos: start_pos.into_ranged(i, i) };
                proof {
                    let rest = spec_lex_from(s, i0 + 1, line0, col0 + 1);
                    assert(spec_lex_from(s, i0, line0, col0) == lex_cons(tok@, rest));
                    lemma_lex_app_cons(toks_v(toks@), tok@, rest);
                    lemma_toks_v_push(toks@, tok);
                }
                toks.push(tok);
                i = i + 1;
            } else {
                proof {
                    let e_spec = SpecLexError {
                        kind: LexErrorKind::UnexpectedChar(c),
                        pos: SpecPos { line: line0, char_: col0, width: 1 },
                    };
                    assert(spec_lex_from(s, i0, line0, col0) == Err::<Seq<SpecToken>, SpecLexError>(
                        e_spec,
                    ));
                }
                return Err(
                    LexError {
                        kind: LexErrorKind::UnexpectedChar(c),
                        pos: start_pos.into_ranged(i, i),
                        code,
                    },
                );
            }
        }
        proof {
            match spec_lex(s) {
                Ok(ts) => {
                    assert(toks_v(toks@) + Seq::<SpecToken>::empty() =~= toks_v(toks@));
                },
                Err(_) => {},
            }
        }
        Ok(toks)
    }
}

/// `a` does not stand after `b` in the source: on an earlier line, or on
/// the same line at a column no further right.
pub open spec fn pos_le(a: SpecPos, b: SpecPos) -> bool {
    a.line < b.line || (a.line == b.line && a.char_ <= b.char_)
}

/// `p` stands at or after line `line`, column `col`.
pub open spec fn at_or_after(p: SpecPos, line: int, col: int) -> bool {
    p.line > line || (p.line == line && p.char_ >= col)
}

/// Token positions never step backwards through the stream.
pub open spec fn stream_sorted(ts: Seq<SpecToken>) -> bool {
    forall|m: int, m2: int|
        0 <= m <= m2 < ts.len() ==> pos_le(#[trigger] ts[m].pos, #[trigger] ts[m2].pos)
}

/// Every token of the stream stands at or after the given point.
pub open spec fn stream_at_or_after(ts: Seq<SpecToken>, line: int, col: int) -> bool {
    forall|m: int| 0 <= m < ts.len() ==> at_or_after((#[trigger] ts[m]).pos, line, col)
}

proof fn lemma_stream_cons(t: SpecToken, rest: Seq<SpecToken>, line: int, col: int, w: int)
    requires
        t.pos.line == line,
        t.pos.char_ == col,
        w >= 1,
        stream_sorted(rest),
        stream_at_or_after(rest, line, col + w),
    ensures
        stream_sorted(seq![t] + rest),
        stream_at_or_after(seq![t] + rest, line, col),
{
    let all = seq![t] + rest;
    assert forall|m: int, m2: int| 0 <= m <= m2 < all.len() implies pos_le(
        all[m].pos,
        all[m2].pos,
    ) by {
        if m == 0 {
            if m2 > 0 {
                assert(all[m2] == rest[m2 - 1]);
                assert(at_or_after(rest[m2 - 1].pos, line, col + w));
            }
        } else {
            assert(all[m] == rest[m - 1] && all[m2] == rest[m2 - 1]);
        }
    }
    assert forall|m: int| 0 <= m < all.len() implies at_or_after(all[m].pos, line, col) by {
        if m > 0 {
            assert(all[m] == rest[m - 1]);
            assert(at_or_after(rest[m - 1].pos, line, col + w));
        }
    }
}

proof fn lemma_stream_weaken(ts: Seq<SpecToken>, line: int, col: int, line2: int, col2: int)
    requires
        stream_at_or_after(ts, line2, col2),
        line2 > line || (line2 == line && col2 >= col),
    ensures
        stream_at_or_after(ts, line, col),
{
    assert forall|m: int| 0 <= m < ts.len() implies at_or_after(ts[m].pos, line, col) by {
        assert(at_or_after(ts[m].pos, line2, col2));
    }
}

proof fn lemma_lex_from_positions(s: Seq<char>, i: int, line: int, col: int)
    requires
        spec_lex_from(s, i, line, col) is Ok,
    ensures
        stream_sorted(spec_lex_from(s, i, line, col)->Ok_0),
        stream_at_or_after(spec_lex_from(s, i, line, col)->Ok_0, line, col),
    decreases s.len() - i,
{
    if i < 0 || i >= s.len() {
    } else {
        let c = s[i];
        if is_digit_c(c) {
            let e0 = scan_end(s, i + 1, digit_p());
            let e = if e0 <= i || e0 > s.len() {
                i + 1
            } else {
                e0
            };
            let tok = SpecToken {
                kind: SpecTokenKind::Num(num_val(s.subrange(i, e))),
                pos: SpecPos { line, char_: col, width: e - i },
            };
            lemma_lex_from_positions(s, e, line, col + (e - i));
            lemma_stream_cons(
                tok,
                spec_lex_from(s, e, line, col + (e - i))->Ok_0,
                line,
                col,
                e - i,
            );
        } else if is_alpha_c(c) {
            let e0 = scan_end(s, i + 1, alnum_p());
            let e = if e0 <= i || e0 > s.len() {
                i + 1
            } else {
                e0
            };
            lemma_lex_from_positions(s, e, line, col + (e - i));
            lemma_stream_cons(
                spec_lex_from(s, i, line, col)->Ok_0[0],
                spec_lex_from(s, e, line, col + (e - i))->Ok_0,
                line,
                col,
                e - i,
            );
        } else if c == '\n' {
            lemma_lex_from_positions(s, i + 1, line + 1, 1);
            lemma_stream_weaken(spec_lex_from(s, i + 1, line + 1, 1)->Ok_0, line, col, line + 1, 1);
        } else if is_blank_c(c) {
            lemma_lex_from_positions(s, i + 1, line, col + 1);
            lemma_stream_weaken(spec_lex_from(s, i + 1, line, col + 1)->Ok_0, line, col, line, col + 1);
        } else if c == '!' || c == '=' {
            if i + 1 < s.len() && s[i + 1] == '=' {
                lemma_lex_from_positions(s, i + 2, line, col + 2);
                lemma_stream_cons(
                    spec_lex_from(s, i, line, col)->Ok_0[0],
                    spec_lex_from(s, i + 2, line, col + 2)->Ok_0,
                    line,
                    col,
                    2,
                );
            } else {
                lemma_lex_from_positions(s, i + 1, line, col + 1);
                lemma_stream_cons(
                    spec_lex_from(s, i, line, col)->Ok_0[0],
                    spec_lex_from(s, i + 1, line, col + 1)->Ok_0,
                    line,
                    col,
                    1,
                );
            }
        } else if is_punct_c(c) {
            lemma_lex_from_positions(s, i + 1, line, col + 1);
            lemma_stream_cons(
                spec_lex_from(s, i, line, col)->Ok_0[0],
                spec_lex_from(s, i + 1, line, col + 1)->Ok_0,
                line,
                col,
                1,
            );
        }
    }
}

/// Token positions are monotonically non-decreasing through the stream:
/// whenever a source tokenizes, each token stands at or after every
/// earlier one, in line-then-column order.
pub proof fn lemma_lex_positions_monotonic(s: Seq<char>)
    requires
        spec_lex(s) is Ok,
    ensures
        stream_sorted(spec_lex(s)->Ok_0),
{
    lemma_lex_from_positions(s, 0, 1, 1);
}

/// The token kinds that are written as pure punctuation lexemes, one or
/// two characters each.
pub open spec fn is_punct_lexeme(k: SpecTokenKind) -> bool {
    ||| k is LParen
    ||| k is RParen
    ||| k is LBracket
    ||| k is RBracket
    ||| k is Add
    ||| k is Minus
    ||| k is Mul
    ||| k is Div
    ||| k is Colon
    ||| k is Semicolon
    ||| k is Comma
    ||| k is Bang
    ||| k is Eq
    ||| k is BangEq
    ||| k is EqEq
}

/// The characters a punctuation lexeme is written with.
pub open spec fn punct_text(k: SpecTokenKind) -> Seq<char> {
    match k {
        SpecTokenKind::LParen => seq!['('],
        SpecTokenKind::RParen => seq![')'],
        SpecTokenKind::LBracket => seq!['{'],
        SpecTokenKind::RBracket => seq!['}'],
        SpecTokenKind::Add => seq!['+'],
        SpecTokenKind::Minus => seq!['-'],
        SpecTokenKind::Mul => seq!['*'],
        SpecTokenKind::Div => seq!['/'],
        SpecTokenKind::Colon => seq![':'],
        SpecTokenKind::Semicolon => seq![';'],
        SpecTokenKind::Comma => seq![','],
        SpecTokenKind::Bang => seq!['!'],
        SpecTokenKind::Eq => seq!['='],
        SpecTokenKind::BangEq => seq!['!', '='],
        SpecTokenKind::EqEq => seq!['=', '='],
        _ => Seq::<char>::empty(),
    }
}

/// The source text that writes the given lexemes one after another,
/// with nothing in between.
pub open spec fn render_puncts(ks: Seq<SpecTokenKind>) -> Seq<char>
    decreases ks.len(),
{
    if ks.len() == 0 {
        Seq::<char>::empty()
    } else {
        punct_text(ks[0]) + render_puncts(ks.drop_first())
    }
}

/// No lexeme boundary disappears under maximal munch: a one-character
/// `!` or `=` lexeme is never followed by a lexeme that starts with `=`,
/// since the two would then be read as one two-character token.
pub open spec fn no_merge(ks: Seq<SpecTokenKind>) -> bool {
    forall|i: int|
        0 <= i < ks.len() - 1 ==> !((#[trigger] ks[i] is Bang || ks[i] is Eq) && punct_text(
            ks[i + 1],
        )[0] == '=')
}

/// Token `m` of a punctuation-only source is lexeme `m`: same kind, as
/// wide as the lexeme, on the scanner's line, starting right after the
/// preceding lexemes.
pub open spec fn punct_tok_ok(
    ts: Seq<SpecToken>,
    ks: Seq<SpecTokenKind>,
    m: int,
    line: int,
    col: int,
) -> bool {
    let t = ts[m];
    t.kind == ks[m] && t.pos.line == line && t.pos.width == punct_text(ks[m]).len()
        && t.pos.char_ == col + render_puncts(ks.take(m)).len()
}

proof fn lemma_lex_puncts_from(s: Seq<char>, ks: Seq<SpecTokenKind>, i: int, line: int, col: int)
    requires
        0 <= i <= s.len(),
        s.subrange(i, s.len() as int) == render_puncts(ks),
        forall|m: int| 0 <= m < ks.len() ==> is_punct_lexeme(#[trigger] ks[m]),
        no_merge(ks),
    ensures
        spec_lex_from(s, i, line, col) is Ok,
        spec_lex_from(s, i, line, col)->Ok_0.len() == ks.len(),
        forall|m: int|
            0 <= m < ks.len() ==> punct_tok_ok(
                spec_lex_from(s, i, line, col)->Ok_0,
                ks,
                m,
                line,
                col,
            ),
    decreases ks.len(),
{
    if ks.len() == 0 {
        assert(s.subrange(i, s.len() as int).len() == 0);
    } else {
        let k0 = ks[0];
        let rest = ks.drop_first();
        let a = punct_text(k0);
        let b = render_puncts(rest);
        let w = a.len() as int;
        let tail = s.subrange(i, s.len() as int);
        assert(1 <= w <= 2);
        assert(tail == a + b);
        assert(tail.len() == s.len() - i);
        assert(i + w <= s.len());
        assert(s[i] == tail[0]);
        assert(tail[0] == a[0]);
        assert(s.subrange(i + w, s.len() as int) =~= b) by {
            assert forall|q: int| 0 <= q < b.len() implies s.subrange(
                i + w,
                s.len() as int,
            )[q] == b[q] by {
                assert(s.subrange(i + w, s.len() as int)[q] == s[i + w + q]);
                assert(s[i + w + q] == tail[w + q]);
                assert(tail[w + q] == b[q]);
            }
        }
        // The scanned character is punctuation, so the scanner cannot take
        // the digit, identifier, whitespace or newline paths.
        assert(!is_digit_c(s[i]) && !is_alpha_c(s[i]) && s[i] != '\n' && !is_blank_c(s[i]));
        // Establish which branch is taken and which token comes out.
        if k0 is BangEq || k0 is EqEq {
            assert(s[i + 1] == tail[1]);
            assert(tail[1] == a[1]);
            assert(s[i + 1] == '=');
        } else if k0 is Bang || k0 is Eq {
            if rest.len() == 0 {
                assert(s.len() == i + 1);
            } else {
                assert(b == punct_text(rest[0]) + render_puncts(rest.drop_first()));
                assert(punct_text(rest[0]).len() >= 1);
                assert(s[i + 1] == tail[1]);
                assert(tail[1] == b[0]);
                assert(b[0] == punct_text(rest[0])[0]);
                assert(rest[0] == ks[1]);
                assert(s[i + 1] != '=');
            }
        } else {
            assert(is_punct_c(s[i]) && punct_kind(s[i]) == k0);
        }
        let tok = SpecToken {
            kind: k0,
            pos: SpecPos { line, char_: col, width: w },
        };
        assert(spec_lex_from(s, i, line, col) == lex_cons(
            tok,
            spec_lex_from(s, i + w, line, col + w),
        ));
        assert(forall|m: int| 0 <= m < rest.len() ==> is_punct_lexeme(#[trigger] rest[m]));
        assert(no_merge(rest)) by {
            assert forall|m: int|
                0 <= m < rest.len() - 1 implies !((#[trigger] rest[m] is Bang || rest[m] is Eq)
                && punct_text(rest[m + 1])[0] == '=') by {
                assert(rest[m] == ks[m + 1] && rest[m + 1] == ks[m + 2]);
            }
        }
        lemma_lex_puncts_from(s, rest, i + w, line, col + w);
        let rest_toks = spec_lex_from(s, i + w, line, col + w)->Ok_0;
        let all = spec_lex_from(s, i, line, col)->Ok_0;
        assert(all == seq![tok] + rest_toks);
        assert forall|m: int| 0 <= m < ks.len() implies punct_tok_ok(all, ks, m, line, col) by {
            if m == 0 {
                assert(ks.take(0) =~= Seq::<SpecTokenKind>::empty());
                assert(all[0] == tok);
            } else {
                assert(all[m] == rest_toks[m - 1]);
                assert(punct_tok_ok(rest_toks, rest, m - 1, line, col + w));
                assert(rest[m - 1] == ks[m]);
                assert(rest.take(m - 1) =~= ks.take(m).drop_first());
                assert(ks.take(m)[0] == k0);
                assert(render_puncts(ks.take(m)) == punct_text(k0) + render_puncts(
                    rest.take(m - 1),
                ));
            }
        }
    }
}

/// A source consisting only of punctuation lexemes, written one after
/// another so that no boundary disappears under maximal munch, tokenizes
/// to exactly one token per lexeme, left to right: each token has the
/// lexeme's kind, stands on line 1, is as wide as the lexeme, and starts
/// at the column right after the preceding lexemes.
pub proof fn lemma_lex_punct_lexemes(ks: Seq<SpecTokenKind>)
    requires
        forall|m: int| 0 <= m < ks.len() ==> is_punct_lexeme(#[trigger] ks[m]),
        no_merge(ks),
    ensures
        spec_lex(render_puncts(ks)) is Ok,
        spec_lex(render_puncts(ks))->Ok_0.len() == ks.len(),
        forall|m: int|
            0 <= m < ks.len() ==> punct_tok_ok(spec_lex(render_puncts(ks))->Ok_0, ks, m, 1, 1),
{
    let s = render_puncts(ks);
    assert(s.subrange(0, s.len() as int) =~= s);
    lemma_lex_puncts_from(s, ks, 0, 1, 1);
}

/// Lexing is deterministic: the outcome is a function of the source text
/// alone, so any two token sequences obtained from the same source are
/// equal.
pub proof fn lemma_lex_deterministic(
    s: Seq<char>,
    r1: Result<Seq<SpecToken>, SpecLexError>,
    r2: Result<Seq<SpecToken>, SpecLexError>,
)
    requires
        r1 == spec_lex(s),
        r2 == spec_lex(s),
    ensures
        r1 == r2,
{
}

} // verus!
