//! Tokens produced by the lexer, their spec-level counterparts, and the
//! single-lookahead cursor the parser reads them through.

use crate::utils::{RangedPos, SpecPos};
use vstd::prelude::*;

verus! {

/// The kind of a lexical token. `Eof` never appears in a lexed stream;
/// it stands for the end-of-stream marker when the parser reports what
/// it found past the last token.
#[derive(Debug, Clone, PartialEq, Eq)]
pub enum TokenKind {
    Num(isize),
    Bool(bool),
    Ident(String),
    Add,
    Minus,
    Mul,
    Div,
    Eof,
    Semicolon,
    Colon,
    Comma,
    Return,
    Fn,
    Bang,
    Eq,
    BangEq,
    EqEq,
    LBracket,
    RBracket,
    LParen,
    RParen,
}

/// Spec-level counterpart of [`TokenKind`]: numbers as unbounded
/// integers, identifier text as a character sequence.
pub enum SpecTokenKind {
    Num(int),
    Bool(bool),
    Ident(Seq<char>),
    Add,
    Minus,
    Mul,
    Div,
    Eof,
    Semicolon,
    Colon,
    Comma,
    Return,
    Fn,
    Bang,
    Eq,
    BangEq,
    EqEq,
    LBracket,
    RBracket,
    LParen,
    RParen,
}

impl View for TokenKind {
    type V = SpecTokenKind;

    open spec fn view(&self) -> SpecTokenKind {
        match self {
            TokenKind::Num(n) => SpecTokenKind::Num(*n as int),
            TokenKind::Bool(b) => SpecTokenKind::Bool(*b),
            TokenKind::Ident(s) => SpecTokenKind::Ident(s@),
            TokenKind::Add => SpecTokenKind::Add,
            TokenKind::Minus => SpecTokenKind::Minus,
            TokenKind::Mul => SpecTokenKind::Mul,
            TokenKind::Div => SpecTokenKind::Div,
            TokenKind::Eof => SpecTokenKind::Eof,
            TokenKind::Semicolon => SpecTokenKind::Semicolon,
            TokenKind::Colon => SpecTokenKind::Colon,
            TokenKind::Comma => SpecTokenKind::Comma,
            TokenKind::Return => SpecTokenKind::Return,
            TokenKind::Fn => SpecTokenKind::Fn,
            TokenKind::Bang => SpecTokenKind::Bang,
            TokenKind::Eq => SpecTokenKind::Eq,
            TokenKind::BangEq => SpecTokenKind::BangEq,
            TokenKind::EqEq => SpecTokenKind::EqEq,
            TokenKind::LBracket => SpecTokenKind::LBracket,
            TokenKind::RBracket => SpecTokenKind::RBracket,
            TokenKind::LParen => SpecTokenKind::LParen,
            TokenKind::RParen => SpecTokenKind::RParen,
        }
    }
}

/// Clone a token kind; the copy has the same view as the one given.
pub fn clone_kind(k: &TokenKind) -> (r: TokenKind)
    ensures
        r@ == k@,
{
    match k {
        TokenKind::Num(n) => TokenKind::Num(*n),
        TokenKind::Bool(b) => TokenKind::Bool(*b),
        TokenKind::Ident(s) => TokenKind::Ident(s.clone()),
        TokenKind::Add => TokenKind::Add,
        TokenKind::Minus => TokenKind::Minus,
        TokenKind::Mul => TokenKind::Mul,
        TokenKind::Div => TokenKind::Div,
        TokenKind::Eof => TokenKind::Eof,
        TokenKind::Semicolon => TokenKind::Semicolon,
        TokenKind::Colon => TokenKind::Colon,
        TokenKind::Comma => TokenKind::Comma,
        TokenKind::Return => TokenKind::Return,
        TokenKind::Fn => TokenKind::Fn,
        TokenKind::Bang => TokenKind::Bang,
        TokenKind::Eq => TokenKind::Eq,
        TokenKind::BangEq => TokenKind::BangEq,
        TokenKind::EqEq => TokenKind::EqEq,
        TokenKind::LBracket => TokenKind::LBracket,
        TokenKind::RBracket => TokenKind::RBracket,
        TokenKind::LParen => TokenKind::LParen,
        TokenKind::RParen => TokenKind::RParen,
    }
}

/// Spec-level counterpart of [`Token`].
pub struct SpecToken {
    pub kind: SpecTokenKind,
    pub pos: SpecPos,
}

/// A lexical token: its kind and the source span it was read from.
#[derive(Debug, Clone, PartialEq, Eq)]
pub struct Token {
    pub pos: RangedPos,
    pub kind: TokenKind,
}

impl View for Token {
    type V = SpecToken;

    open spec fn view(&self) -> SpecToken {
        SpecToken { kind: self.kind@, pos: self.pos@ }
    }
}

/// The views of a sequence of tokens.
pub open spec fn toks_v(ts: Seq<Token>) -> Seq<SpecToken> {
    ts.map_values(|t: Token| t@)
}

/// A forward-only cursor over a materialized token sequence: one token
/// of lookahead, no pushback.
#[derive(Debug)]
pub struct TokensIterator {
    pub tokens: Vec<Token>,
    pub current: usize,
}

impl TokensIterator {
    /// The cursor never points past the end of the token sequence.
    pub open spec fn wf(&self) -> bool {
        self.current <= self.tokens@.len()
    }

    pub fn new(tokens: Vec<Token>) -> (r: Self)
        ensures
            r.tokens == tokens,
            r.current == 0,
            r.wf(),
    {
        TokensIterator { tokens, current: 0 }
    }

    /// The next unconsumed token and its position, without advancing;
    /// `None` once every token has been consumed.
    pub fn peek(&self) -> (r: Option<(TokenKind, RangedPos)>)
        ensures
            match r {
                Some((k, p)) => self.current < self.tokens@.len() && k@ == self.tokens@[
                    self.current as int
                ].kind@ && p == self.tokens@[self.current as int].pos,
                None => self.current >= self.tokens@.len(),
            },
    {
        if self.current < self.tokens.len() {
            let t = &self.tokens[self.current];
            Some((clone_kind(&t.kind), t.pos))
        } else {
            None
        }
    }

    /// Move the cursor past the current token.
    pub fn advance(&mut self)
        requires
            old(self).current < old(self).tokens@.len(),
        ensures
            final(self).current == old(self).current + 1,
            final(self).tokens == old(self).tokens,
            final(self).wf(),
    {
        proof {
            vstd::std_specs::vec::axiom_spec_len(&self.tokens);
        }
        self.current = self.current + 1;
    }

    /// The current token and its position, advancing past it; `None`
    /// once the cursor has passed the last token.
    pub fn next(&mut self) -> (r: Option<(TokenKind, RangedPos)>)
        requires
            old(self).wf(),
        ensures
            final(self).tokens == old(self).tokens,
            final(self).wf(),
            match r {
                Some((k, p)) => old(self).current < old(self).tokens@.len() && k@ == old(
                    self,
                ).tokens@[old(self).current as int].kind@ && p == old(self).tokens@[old(
                    self,
                ).current as int].pos && final(self).current == old(self).current + 1,
                None => old(self).current >= old(self).tokens@.len() && final(self).current == old(
                    self,
                ).current,
            },
    {
        if self.current < self.tokens.len() {
            let t = &self.tokens[self.current];
            let r = Some((clone_kind(&t.kind), t.pos));
            self.current = self.current + 1;
            r
        } else {
            None
        }
    }
}

} // verus!
