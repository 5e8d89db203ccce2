//! The state of the single-pass parser: the last two tokens and the error
//! flags.
use vstd::prelude::*;
use crate::token::{Token, TokenView};

verus! {

pub struct Parser {
    pub previous: Option<Token>,
    pub current: Option<Token>,
    pub panic_mode: bool,
    pub had_error: bool,
}

/// The view of a token that may be absent.
pub open spec fn token_view(token: Option<Token>) -> Option<TokenView> {
    match token {
        Some(t) => Some(t@),
        None => None,
    }
}

impl Parser {
    pub fn new() -> (parser: Parser)
        ensures
            parser.previous is None,
            parser.current is None,
            !parser.panic_mode,
            !parser.had_error,
    {
        Parser { previous: None, current: None, panic_mode: false, had_error: false }
    }
}

} // verus!
