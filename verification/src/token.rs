//! Lexical tokens and their mathematical views.

use vstd::prelude::*;

verus! {

/// The closed set of token kinds: punctuation, one- and two-character
/// operators, the three literal carriers, the keywords, and `Eof`.
#[derive(Clone, Copy, Debug, PartialEq, Eq, Structural)]
pub enum TokenType {
    LeftParen,
    RightParen,
    LeftBrace,
    RightBrace,
    Comma,
    Dot,
    Minus,
    Plus,
    Semicolon,
    Slash,
    Star,
    Bang,
    BangEqual,
    Equal,
    EqualEqual,
    Greater,
    GreaterEqual,
    Less,
    LessEqual,
    Identifier,
    String,
    Number,
    Bool,
    If,
    Else,
    Class,
    Fn,
    For,
    While,
    Null,
    Print,
    Return,
    Super,
    This,
    Let,
    And,
    Or,
    Eof,
}

/// The literal payload a token can carry. A fractional numeral is kept as the
/// verbatim digit text (`"1.5"`); the verified core never computes with binary
/// floating point, so conversion to a machine float is left to the embedding
/// shell.
#[derive(Clone, Debug)]
pub enum TokenLiteral {
    Int(i64),
    Float(String),
    Str(String),
    Bool(bool),
}

/// Mathematical view of a literal: text becomes a character sequence.
pub enum LitView {
    Int(i64),
    Float(Seq<char>),
    Str(Seq<char>),
    Bool(bool),
}

impl View for TokenLiteral {
    type V = LitView;

    open spec fn view(&self) -> LitView {
        match self {
            TokenLiteral::Int(i) => LitView::Int(*i),
            TokenLiteral::Float(s) => LitView::Float(s@),
            TokenLiteral::Str(s) => LitView::Str(s@),
            TokenLiteral::Bool(b) => LitView::Bool(*b),
        }
    }
}

/// One lexical unit: kind, original text, optional literal payload, and the
/// source position where it was recorded (1-based line, 0-based column).
#[derive(Clone, Debug)]
pub struct Token {
    pub ttype: TokenType,
    pub lexeme: String,
    pub literal: Option<TokenLiteral>,
    pub line: u32,
    pub pos: u32,
}

/// Mathematical view of a token.
pub struct TokenView {
    pub ttype: TokenType,
    pub lexeme: Seq<char>,
    pub literal: Option<LitView>,
    pub line: int,
    pub pos: int,
}

impl View for Token {
    type V = TokenView;

    open spec fn view(&self) -> TokenView {
        TokenView {
            ttype: self.ttype,
            lexeme: self.lexeme@,
            literal: match &self.literal {
                Option::Some(l) => Option::Some(l@),
                Option::None => Option::None,
            },
            line: self.line as int,
            pos: self.pos as int,
        }
    }
}

impl Token {
    pub fn new(
        ttype: TokenType,
        lexeme: String,
        literal: Option<TokenLiteral>,
        line: u32,
        pos: u32,
    ) -> (t: Token)
        ensures
            t.ttype == ttype,
            t.lexeme == lexeme,
            t.literal == literal,
            t.line == line,
            t.pos == pos,
    {
        Token { ttype, lexeme, literal, line, pos }
    }
}

impl TokenLiteral {
    /// A deep copy whose view is unchanged.
    pub fn duplicate(&self) -> (l: TokenLiteral)
        ensures
            l@ == self@,
    {
        match self {
            TokenLiteral::Int(i) => TokenLiteral::Int(*i),
            TokenLiteral::Float(s) => TokenLiteral::Float(s.clone()),
            TokenLiteral::Str(s) => TokenLiteral::Str(s.clone()),
            TokenLiteral::Bool(b) => TokenLiteral::Bool(*b),
        }
    }
}

impl Token {
    /// A deep copy whose view is unchanged.
    pub fn duplicate(&self) -> (t: Token)
        ensures
            t@ == self@,
    {
        Token {
            ttype: self.ttype,
            lexeme: self.lexeme.clone(),
            literal: match &self.literal {
                Option::Some(l) => Option::Some(l.duplicate()),
                Option::None => Option::None,
            },
            line: self.line,
            pos: self.pos,
        }
    }
}

/// The views of a token sequence.
pub open spec fn tokens_view(s: Seq<Token>) -> Seq<TokenView> {
    s.map_values(|t: Token| t@)
}

} // verus!
