//! Tokens: what the scanner hands to the parser and the compiler.
use vstd::prelude::*;

verus! {

#[derive(Debug, Clone, Copy, PartialEq, Eq, Structural)]
pub enum TokenType {
    // Single-character tokens.
    LeftParen,
    RightParen,
    LeftBrace,
    RightBrace,
    Comma,
    Dot,
    Minus,
    Plus,
    SemiColon,
    Slash,
    Star,
    // One or two character tokens.
    Bang,
    BangEqual,
    Equal,
    EqualEqual,
    Greater,
    GreaterEqual,
    Less,
    LessEqual,
    // Literals.
    Identifier,
    String,
    Number,
    // Keywords.
    And,
    Class,
    Else,
    False,
    Fun,
    For,
    If,
    Nil,
    Or,
    Print,
    Return,
    Super,
    This,
    True,
    Var,
    While,
    EOF,
}

/// A literal as the source writes it. A numeral keeps its digits: its value
/// is a binary64 number, which only the host can compute.
#[derive(Debug)]
pub enum Literal {
    Nil,
    Bool(bool),
    Number(String),
    String(String),
}

pub enum LiteralView {
    Nil,
    Bool(bool),
    Number(Seq<char>),
    String(Seq<char>),
}

impl View for Literal {
    type V = LiteralView;

    open spec fn view(&self) -> LiteralView {
        match self {
            Literal::Nil => LiteralView::Nil,
            Literal::Bool(b) => LiteralView::Bool(*b),
            Literal::Number(digits) => LiteralView::Number(digits@),
            Literal::String(text) => LiteralView::String(text@),
        }
    }
}

impl DeepView for Literal {
    type V = LiteralView;

    open spec fn deep_view(&self) -> LiteralView {
        self@
    }
}

impl Clone for Literal {
    fn clone(&self) -> (copy: Literal)
        ensures
            copy == *self,
    {
        match self {
            Literal::Nil => Literal::Nil,
            Literal::Bool(b) => Literal::Bool(*b),
            Literal::Number(digits) => Literal::Number(digits.clone()),
            Literal::String(text) => Literal::String(text.clone()),
        }
    }
}

/// One token: its kind, the exact text it spans, the line it ends on, and the
/// literal it writes, if it is a string or a number.
#[derive(Debug)]
pub struct Token {
    pub token_type: TokenType,
    pub lexeme: String,
    pub line: usize,
    pub literal: Literal,
}

pub struct TokenView {
    pub token_type: TokenType,
    pub lexeme: Seq<char>,
    pub line: usize,
    pub literal: LiteralView,
}

impl View for Token {
    type V = TokenView;

    open spec fn view(&self) -> TokenView {
        TokenView {
            token_type: self.token_type,
            lexeme: self.lexeme@,
            line: self.line,
            literal: self.literal@,
        }
    }
}

impl DeepView for Token {
    type V = TokenView;

    open spec fn deep_view(&self) -> TokenView {
        self@
    }
}

impl Clone for Token {
    fn clone(&self) -> (copy: Token)
        ensures
            copy == *self,
    {
        Token {
            token_type: self.token_type,
            lexeme: self.lexeme.clone(),
            line: self.line,
            literal: self.literal.clone(),
        }
    }
}

impl Token {
    pub fn new(token_type: TokenType, lexeme: &str, literal: Literal, line: usize) -> (token: Token)
        ensures
            token@ == (TokenView { token_type, lexeme: lexeme@, line, literal: literal@ }),
    {
        Token { token_type, lexeme: lexeme.to_owned(), line, literal }
    }

    /// The token that stands for the end of the source: no text, no line.
    pub fn dummy() -> (token: Token)
        ensures
            token@ == (TokenView {
                token_type: TokenType::EOF,
                lexeme: Seq::<char>::empty(),
                line: 0,
                literal: LiteralView::Nil,
            }),
    {
        Token { token_type: TokenType::EOF, lexeme: String::new(), line: 0, literal: Literal::Nil }
    }
}

} // verus!
