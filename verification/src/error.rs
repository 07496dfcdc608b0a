//! The error values returned by the three pipeline stages.

use vstd::prelude::*;

use crate::token::Token;
use crate::token::TokenView;

verus! {

/// A lexical error: message, position of the offending character (1-based
/// line, 0-based column), and a copy of the source line for caret-style
/// diagnostics.
#[derive(Debug)]
pub struct ScannerError {
    pub msg: String,
    pub line: u32,
    pub pos: u32,
    pub source_line: String,
}

/// Mathematical view of a `ScannerError`.
pub struct ScanErrView {
    pub msg: Seq<char>,
    pub line: int,
    pub pos: int,
    pub source_line: Seq<char>,
}

impl View for ScannerError {
    type V = ScanErrView;

    open spec fn view(&self) -> ScanErrView {
        ScanErrView {
            msg: self.msg@,
            line: self.line as int,
            pos: self.pos as int,
            source_line: self.source_line@,
        }
    }
}

impl ScannerError {
    pub fn get_message(&self) -> (r: String)
        ensures
            r@ == self.msg@,
    {
        self.msg.clone()
    }
}

/// A syntax error: message and, when one was at hand, the offending token.
#[derive(Debug)]
pub struct ParserError {
    pub msg: String,
    pub token: Option<Token>,
}

/// Mathematical view of a `ParserError`.
pub struct ParseErrView {
    pub msg: Seq<char>,
    pub token: Option<TokenView>,
}

impl View for ParserError {
    type V = ParseErrView;

    open spec fn view(&self) -> ParseErrView {
        ParseErrView {
            msg: self.msg@,
            token: match &self.token {
                Option::Some(t) => Option::Some(t@),
                Option::None => Option::None,
            },
        }
    }
}

impl ParserError {
    pub fn get_message(&self) -> (r: String)
        ensures
            r@ == self.msg@,
    {
        self.msg.clone()
    }

    pub fn print_msg(&self) {
    }
}

/// An evaluation error: message and, when one was at hand, the offending
/// token.
#[derive(Debug)]
pub struct RuntimeError {
    pub msg: String,
    pub token: Option<Token>,
}

/// Mathematical view of a `RuntimeError`.
pub struct RtErrView {
    pub msg: Seq<char>,
    pub token: Option<TokenView>,
}

impl View for RuntimeError {
    type V = RtErrView;

    open spec fn view(&self) -> RtErrView {
        RtErrView {
            msg: self.msg@,
            token: match &self.token {
                Option::Some(t) => Option::Some(t@),
                Option::None => Option::None,
            },
        }
    }
}

impl RuntimeError {
    pub fn get_message(&self) -> (r: String)
        ensures
            r@ == self.msg@,
    {
        self.msg.clone()
    }
}

/// A stage-tagged error message, for callers that only keep the text.
pub enum Error {
    ScannerError { msg: String },
    ParserError { msg: String },
}

impl Error {
    pub fn message(&self) -> (r: String)
        ensures
            r@ == match self {
                Error::ScannerError { msg } => msg@,
                Error::ParserError { msg } => msg@,
            },
    {
        match self {
            Error::ScannerError { msg } => msg.clone(),
            Error::ParserError { msg } => msg.clone(),
        }
    }
}

} // verus!
