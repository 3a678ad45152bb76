//! The tokens the parser reads: each has a lexical category and a position.
use vstd::prelude::*;
use crate::ast::Position;

verus! {

/// Reserved words.
#[derive(Debug, Clone, Copy, PartialEq, Eq, Structural)]
pub enum Keyword {
    Int,
    If,
    Else,
    For,
    Return,
}

/// Operators and punctuation.
#[derive(Debug, Clone, Copy, PartialEq, Eq, Structural)]
pub enum Symbol {
    Plus,
    Minus,
    Star,
    Slash,
    Assign,
    PlusAssign,
    MinusAssign,
    EqEq,
    NotEq,
    Lt,
    Le,
    Gt,
    Ge,
    LParen,
    RParen,
    LBrace,
    RBrace,
    Comma,
    Semicolon,
}

/// The lexical category of a token, with its text or value.
#[derive(Debug)]
pub enum TokenKind {
    Ident(String),
    Number(u64),
    Keyword(Keyword),
    Symbol(Symbol),
    Eof,
}

/// A token and where it starts.
#[derive(Debug)]
pub struct Token {
    pub kind: TokenKind,
    pub position: Position,
}

} // verus!
