pub mod token_type;

use vstd::prelude::*;

pub use token_type::{SpecTokenType, TokenType};

verus! {

/// A classified unit of lexical input: what it is and the line it was found
/// on. Lines are counted from zero.
#[derive(Debug, PartialEq)]
pub struct Token {
    token_type: TokenType,
    line: usize,
}

/// The mathematical value of a [`Token`].
pub struct SpecToken {
    pub token_type: SpecTokenType,
    pub line: nat,
}

impl View for Token {
    type V = SpecToken;

    closed spec fn view(&self) -> SpecToken {
        SpecToken { token_type: self.token_type@, line: self.line as nat }
    }
}

impl Token {
    pub fn new(token_type: TokenType, line: usize) -> (token: Self)
        ensures
            token@ == (SpecToken { token_type: token_type@, line: line as nat }),
    {
        Self { token_type, line }
    }

    pub fn token_type(&self) -> (token_type: &TokenType)
        ensures
            token_type@ == self@.token_type,
    {
        &self.token_type
    }

    pub fn line(&self) -> (line: usize)
        ensures
            line == self@.line,
    {
        self.line
    }

    /// This token as text for a reader: its type, without its line.
    pub fn to_string(&self) -> (text: String)
        ensures
            text@ == self@.token_type.text(),
    {
        self.token_type.to_string()
    }
}

impl Clone for Token {
    fn clone(&self) -> (res: Self)
        ensures
            res == *self,
    {
        Token { token_type: self.token_type.clone(), line: self.line }
    }
}

/// The values of a run of tokens, in order.
pub open spec fn token_views(tokens: Seq<Token>) -> Seq<SpecToken> {
    tokens.map_values(|t: Token| t@)
}

} // verus!
