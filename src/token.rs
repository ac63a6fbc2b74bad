use vstd::prelude::*;

use crate::position::Position;

verus! {

/// The words that the lexer reserves.
#[derive(Debug, Clone, Copy, PartialEq, Eq, Structural)]
pub enum Keyword {
    Let,
    Return,
}

/// The kind of a token, with the text or value it carries.
#[derive(Debug, PartialEq, Eq)]
pub enum TokenType {
    Equals,
    Plus,
    Minus,
    Asterisk,
    Slash,
    Colon,
    OpenParenthesis,
    CloseParenthesis,
    Comma,
    Keyword(Keyword),
    Identifier(String),
    StringLiteral(String),
    IntegerLiteral(i32),
}

/// The mathematical value of a [`TokenType`].
pub enum SpecTokenType {
    Equals,
    Plus,
    Minus,
    Asterisk,
    Slash,
    Colon,
    OpenParenthesis,
    CloseParenthesis,
    Comma,
    Keyword(Keyword),
    Identifier(Seq<char>),
    StringLiteral(Seq<char>),
    IntegerLiteral(i32),
}

impl View for TokenType {
    type V = SpecTokenType;

    open spec fn view(&self) -> SpecTokenType {
        match self {
            TokenType::Equals => SpecTokenType::Equals,
            TokenType::Plus => SpecTokenType::Plus,
            TokenType::Minus => SpecTokenType::Minus,
            TokenType::Asterisk => SpecTokenType::Asterisk,
            TokenType::Slash => SpecTokenType::Slash,
            TokenType::Colon => SpecTokenType::Colon,
            TokenType::OpenParenthesis => SpecTokenType::OpenParenthesis,
            TokenType::CloseParenthesis => SpecTokenType::CloseParenthesis,
            TokenType::Comma => SpecTokenType::Comma,
            TokenType::Keyword(k) => SpecTokenType::Keyword(*k),
            TokenType::Identifier(s) => SpecTokenType::Identifier(s@),
            TokenType::StringLiteral(s) => SpecTokenType::StringLiteral(s@),
            TokenType::IntegerLiteral(v) => SpecTokenType::IntegerLiteral(*v),
        }
    }
}

impl Clone for TokenType {
    fn clone(&self) -> (r: Self)
        ensures
            r == *self,
    {
        match self {
            TokenType::Equals => TokenType::Equals,
            TokenType::Plus => TokenType::Plus,
            TokenType::Minus => TokenType::Minus,
            TokenType::Asterisk => TokenType::Asterisk,
            TokenType::Slash => TokenType::Slash,
            TokenType::Colon => TokenType::Colon,
            TokenType::OpenParenthesis => TokenType::OpenParenthesis,
            TokenType::CloseParenthesis => TokenType::CloseParenthesis,
            TokenType::Comma => TokenType::Comma,
            TokenType::Keyword(k) => TokenType::Keyword(*k),
            TokenType::Identifier(s) => TokenType::Identifier(s.clone()),
            TokenType::StringLiteral(s) => TokenType::StringLiteral(s.clone()),
            TokenType::IntegerLiteral(v) => TokenType::IntegerLiteral(*v),
        }
    }
}

/// A token and the source position at which it ends.
#[derive(Debug)]
pub struct Token {
    pub token_type: TokenType,
    pub position: Position,
}

/// The mathematical value of a [`Token`].
pub struct SpecToken {
    pub token_type: SpecTokenType,
    pub position: Position,
}

impl View for Token {
    type V = SpecToken;

    open spec fn view(&self) -> SpecToken {
        SpecToken { token_type: self.token_type@, position: self.position }
    }
}

impl Clone for Token {
    fn clone(&self) -> (r: Self)
        ensures
            r == *self,
    {
        Token { token_type: self.token_type.clone(), position: self.position }
    }
}

impl Token {
    pub fn new(token_type: TokenType, position: Position) -> (r: Self)
        ensures
            r.token_type == token_type,
            r.position == position,
    {
        Self { token_type, position }
    }
}

/// The views of a sequence of tokens.
pub open spec fn token_views(tokens: Seq<Token>) -> Seq<SpecToken> {
    tokens.map_values(|t: Token| t@)
}

} // verus!
