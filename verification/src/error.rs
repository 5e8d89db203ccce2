//! The errors of the scanner, the compiler and the two evaluators.
use vstd::prelude::*;
use crate::text::{decimal, push_decimal, push_text};

verus! {

/// What an error says: where, and in which words.
pub struct ErrorView {
    pub line: usize,
    pub message: Seq<char>,
}

/// The text `Line <line> - <kind>: <message>`.
pub open spec fn report(line: usize, kind: Seq<char>, message: Seq<char>) -> Seq<char> {
    "Line "@ + decimal(line as nat) + " - "@ + kind + ": "@ + message
}

fn write_report(line: usize, kind: &str, message: &str) -> (text: String)
    ensures
        text@ == report(line, kind@, message@),
{
    let mut text = "Line ".to_owned();
    push_decimal(&mut text, line);
    push_text(&mut text, " - ");
    push_text(&mut text, kind);
    push_text(&mut text, ": ");
    push_text(&mut text, message);
    text
}

/// An error of the scanner.
#[derive(Debug)]
pub struct TokenError {
    pub line: usize,
    pub message: String,
}

impl View for TokenError {
    type V = ErrorView;

    open spec fn view(&self) -> ErrorView {
        ErrorView { line: self.line, message: self.message@ }
    }
}

impl TokenError {
    pub fn new(line: usize, message: &str) -> (error: TokenError)
        ensures
            error@ == (ErrorView { line, message: message@ }),
    {
        TokenError { line, message: message.to_owned() }
    }

    /// The error as one line of text.
    pub fn to_text(&self) -> (text: String)
        ensures
            text@ == report(self.line, "Token error"@, self.message@),
    {
        write_report(self.line, "Token error", self.message.as_str())
    }
}

/// An error raised while a program runs.
#[derive(Debug)]
pub struct RuntimeError {
    pub line: usize,
    pub message: String,
}

impl View for RuntimeError {
    type V = ErrorView;

    open spec fn view(&self) -> ErrorView {
        ErrorView { line: self.line, message: self.message@ }
    }
}

impl RuntimeError {
    pub fn new(line: usize, message: &str) -> (error: RuntimeError)
        ensures
            error@ == (ErrorView { line, message: message@ }),
    {
        RuntimeError { line, message: message.to_owned() }
    }

    /// The error as one line of text.
    pub fn to_text(&self) -> (text: String)
        ensures
            text@ == report(self.line, "Runtime error"@, self.message@),
    {
        write_report(self.line, "Runtime error", self.message.as_str())
    }

    /// The error as the driver prints it: the message, then `[line N]` on a
    /// line of its own.
    pub fn diagnostic(&self) -> (text: String)
        ensures
            text@ == self.message@ + "\n[line "@ + decimal(self.line as nat) + "]"@,
    {
        let mut text = self.message.clone();
        push_text(&mut text, "\n[line ");
        push_decimal(&mut text, self.line);
        push_text(&mut text, "]");
        text
    }
}

/// An error of the compiler.
#[derive(Debug)]
pub struct CompilerError {
    pub line: usize,
    pub message: String,
}

impl View for CompilerError {
    type V = ErrorView;

    open spec fn view(&self) -> ErrorView {
        ErrorView { line: self.line, message: self.message@ }
    }
}

impl CompilerError {
    pub fn new(line: usize, message: &str) -> (error: CompilerError)
        ensures
            error@ == (ErrorView { line, message: message@ }),
    {
        CompilerError { line, message: message.to_owned() }
    }

    /// The error as one line of text.
    pub fn to_text(&self) -> (text: String)
        ensures
            text@ == report(self.line, "Compiler error"@, self.message@),
    {
        write_report(self.line, "Compiler error", self.message.as_str())
    }
}

/// Any error of the bytecode pipeline.
#[derive(Debug)]
pub enum RLoxError {
    TokenError(TokenError),
    RuntimeError(RuntimeError),
    CompilerError(CompilerError),
}

pub enum RLoxErrorView {
    TokenError(ErrorView),
    RuntimeError(ErrorView),
    CompilerError(ErrorView),
}

impl View for RLoxError {
    type V = RLoxErrorView;

    open spec fn view(&self) -> RLoxErrorView {
        match self {
            RLoxError::TokenError(e) => RLoxErrorView::TokenError(e@),
            RLoxError::RuntimeError(e) => RLoxErrorView::RuntimeError(e@),
            RLoxError::CompilerError(e) => RLoxErrorView::CompilerError(e@),
        }
    }
}

impl RLoxError {
    /// The error as one line of text: that of the error it holds.
    pub fn to_text(&self) -> (text: String)
        ensures
            text@ == match self@ {
                RLoxErrorView::TokenError(e) => report(e.line, "Token error"@, e.message),
                RLoxErrorView::RuntimeError(e) => report(e.line, "Runtime error"@, e.message),
                RLoxErrorView::CompilerError(e) => report(e.line, "Compiler error"@, e.message),
            },
    {
        match self {
            RLoxError::TokenError(e) => e.to_text(),
            RLoxError::RuntimeError(e) => e.to_text(),
            RLoxError::CompilerError(e) => e.to_text(),
        }
    }
}

impl From<TokenError> for RLoxError {
    fn from(e: TokenError) -> (error: RLoxError) {
        RLoxError::TokenError(e)
    }
}

impl vstd::std_specs::convert::FromSpecImpl<TokenError> for RLoxError {
    open spec fn obeys_from_spec() -> bool {
        true
    }

    open spec fn from_spec(e: TokenError) -> RLoxError {
        RLoxError::TokenError(e)
    }
}

impl From<RuntimeError> for RLoxError {
    fn from(e: RuntimeError) -> (error: RLoxError) {
        RLoxError::RuntimeError(e)
    }
}

impl vstd::std_specs::convert::FromSpecImpl<RuntimeError> for RLoxError {
    open spec fn obeys_from_spec() -> bool {
        true
    }

    open spec fn from_spec(e: RuntimeError) -> RLoxError {
        RLoxError::RuntimeError(e)
    }
}

impl From<CompilerError> for RLoxError {
    fn from(e: CompilerError) -> (error: RLoxError) {
        RLoxError::CompilerError(e)
    }
}

impl vstd::std_specs::convert::FromSpecImpl<CompilerError> for RLoxError {
    open spec fn obeys_from_spec() -> bool {
        true
    }

    open spec fn from_spec(e: CompilerError) -> RLoxError {
        RLoxError::CompilerError(e)
    }
}

} // verus!
