//! Tokens of the source language and the positions they were read at.

use vstd::prelude::*;

verus! {

/// One lexical unit of the source language.
#[derive(Debug)]
pub enum Token {
    Func,
    Return,
    Int,
    Print,
    Read,
    While,
    If,
    Else,
    Break,
    Continue,
    LeftParen,
    RightParen,
    LeftCurly,
    RightCurly,
    Comma,
    Semicolon,
    Plus,
    Subtract,
    Multiply,
    Divide,
    Modulus,
    Assign,
    Less,
    LessEqual,
    Greater,
    GreaterEqual,
    Equality,
    NotEqual,
    Ident(String),
    Num(i32),
    /// Marks the end of a token stream that carries such a mark.
    End,
}

/// What a token is, without what it carries.
#[derive(Debug, Clone, Copy, PartialEq, Eq, Structural)]
pub enum TokenKind {
    Func,
    Return,
    Int,
    Print,
    Read,
    While,
    If,
    Else,
    Break,
    Continue,
    LeftParen,
    RightParen,
    LeftCurly,
    RightCurly,
    Comma,
    Semicolon,
    Plus,
    Subtract,
    Multiply,
    Divide,
    Modulus,
    Assign,
    Less,
    LessEqual,
    Greater,
    GreaterEqual,
    Equality,
    NotEqual,
    Ident,
    Num,
    End,
}

/// Line and column, both counted from one.
#[derive(Debug, Clone, Copy, PartialEq, Eq, Structural)]
pub struct Loc {
    pub line: i32,
    pub col: i32,
}

/// A token as contracts see it: its kind, the name it carries if it is an
/// identifier, the value it carries if it is a number.
pub struct Lexeme {
    pub kind: TokenKind,
    pub name: Seq<char>,
    pub value: i32,
}

impl Lexeme {
    /// A token that carries nothing.
    pub open spec fn plain(kind: TokenKind) -> Lexeme {
        Lexeme { kind, name: Seq::empty(), value: 0 }
    }

    /// The identifier `name`.
    pub open spec fn ident(name: Seq<char>) -> Lexeme {
        Lexeme { kind: TokenKind::Ident, name, value: 0 }
    }

    /// The number `value`.
    pub open spec fn num(value: i32) -> Lexeme {
        Lexeme { kind: TokenKind::Num, name: Seq::empty(), value }
    }
}

impl View for Token {
    type V = Lexeme;

    open spec fn view(&self) -> Lexeme {
        match self {
            Token::Ident(name) => Lexeme::ident(name@),
            Token::Num(value) => Lexeme::num(*value),
            _ => Lexeme::plain(self.spec_kind()),
        }
    }
}

impl DeepView for Token {
    type V = Lexeme;

    open spec fn deep_view(&self) -> Lexeme {
        self@
    }
}

impl Token {
    pub open spec fn spec_kind(&self) -> TokenKind {
        match self {
            Token::Func => TokenKind::Func,
            Token::Return => TokenKind::Return,
            Token::Int => TokenKind::Int,
            Token::Print => TokenKind::Print,
            Token::Read => TokenKind::Read,
            Token::While => TokenKind::While,
            Token::If => TokenKind::If,
            Token::Else => TokenKind::Else,
            Token::Break => TokenKind::Break,
            Token::Continue => TokenKind::Continue,
            Token::LeftParen => TokenKind::LeftParen,
            Token::RightParen => TokenKind::RightParen,
            Token::LeftCurly => TokenKind::LeftCurly,
            Token::RightCurly => TokenKind::RightCurly,
            Token::Comma => TokenKind::Comma,
            Token::Semicolon => TokenKind::Semicolon,
            Token::Plus => TokenKind::Plus,
            Token::Subtract => TokenKind::Subtract,
            Token::Multiply => TokenKind::Multiply,
            Token::Divide => TokenKind::Divide,
            Token::Modulus => TokenKind::Modulus,
            Token::Assign => TokenKind::Assign,
            Token::Less => TokenKind::Less,
            Token::LessEqual => TokenKind::LessEqual,
            Token::Greater => TokenKind::Greater,
            Token::GreaterEqual => TokenKind::GreaterEqual,
            Token::Equality => TokenKind::Equality,
            Token::NotEqual => TokenKind::NotEqual,
            Token::Ident(_) => TokenKind::Ident,
            Token::Num(_) => TokenKind::Num,
            Token::End => TokenKind::End,
        }
    }

    /// The kind of this token.
    #[verifier::when_used_as_spec(spec_kind)]
    pub fn kind(&self) -> (k: TokenKind)
        ensures
            k == self.spec_kind(),
    {
        match self {
            Token::Func => TokenKind::Func,
            Token::Return => TokenKind::Return,
            Token::Int => TokenKind::Int,
            Token::Print => TokenKind::Print,
            Token::Read => TokenKind::Read,
            Token::While => TokenKind::While,
            Token::If => TokenKind::If,
            Token::Else => TokenKind::Else,
            Token::Break => TokenKind::Break,
            Token::Continue => TokenKind::Continue,
            Token::LeftParen => TokenKind::LeftParen,
            Token::RightParen => TokenKind::RightParen,
            Token::LeftCurly => TokenKind::LeftCurly,
            Token::RightCurly => TokenKind::RightCurly,
            Token::Comma => TokenKind::Comma,
            Token::Semicolon => TokenKind::Semicolon,
            Token::Plus => TokenKind::Plus,
            Token::Subtract => TokenKind::Subtract,
            Token::Multiply => TokenKind::Multiply,
            Token::Divide => TokenKind::Divide,
            Token::Modulus => TokenKind::Modulus,
            Token::Assign => TokenKind::Assign,
            Token::Less => TokenKind::Less,
            Token::LessEqual => TokenKind::LessEqual,
            Token::Greater => TokenKind::Greater,
            Token::GreaterEqual => TokenKind::GreaterEqual,
            Token::Equality => TokenKind::Equality,
            Token::NotEqual => TokenKind::NotEqual,
            Token::Ident(_) => TokenKind::Ident,
            Token::Num(_) => TokenKind::Num,
            Token::End => TokenKind::End,
        }
    }
}

} // verus!
