use vstd::prelude::*;
use vstd::string::StringExecFns;

use crate::text::{decimal, push_decimal};

use crate::scanner::token::{SpecToken, SpecTokenType, Token, TokenType};

verus! {

/// Why an expression could not be parsed. `token` is the token the parser
/// was looking at when it gave up.
#[derive(Debug, PartialEq)]
pub enum ParserError {
    /// The input ended where an expression was expected.
    UnexpectedEnd { token: Token },
    /// A token of type `expected_token_type` was required but `token` was found.
    ExpectedAnother { expected_token_type: TokenType, token: Token },
    /// `token` cannot start an expression.
    ExpectedOther { token: Token },
}

/// The mathematical value of a [`ParserError`].
pub enum SpecParserError {
    UnexpectedEnd { token: SpecToken },
    ExpectedAnother { expected_token_type: SpecTokenType, token: SpecToken },
    ExpectedOther { token: SpecToken },
}

impl View for ParserError {
    type V = SpecParserError;

    open spec fn view(&self) -> SpecParserError {
        match self {
            ParserError::UnexpectedEnd { token } => SpecParserError::UnexpectedEnd { token: token@ },
            ParserError::ExpectedAnother {
                expected_token_type,
                token,
            } => SpecParserError::ExpectedAnother {
                expected_token_type: expected_token_type@,
                token: token@,
            },
            ParserError::ExpectedOther { token } => SpecParserError::ExpectedOther { token: token@ },
        }
    }
}

impl SpecParserError {
    /// The message of this error.
    pub open spec fn message(self) -> Seq<char> {
        match self {
            SpecParserError::UnexpectedEnd { token } => "Expected expression: "@ + decimal(
                token.line,
            ),
            SpecParserError::ExpectedAnother { expected_token_type, token } => "Expected "@
                + expected_token_type.text() + " instead got "@ + token.token_type.text()
                + " at line: "@ + decimal(token.line),
            SpecParserError::ExpectedOther { token } => "Unexpected token "@
                + token.token_type.text() + " at line: "@ + decimal(token.line),
        }
    }
}

impl ParserError {
    /// The message of this error, for a reader.
    pub fn to_string(&self) -> (text: String)
        ensures
            text@ == self@.message(),
    {
        match self {
            ParserError::UnexpectedEnd { token } => {
                let mut text = String::from_str("Expected expression: ");
                push_decimal(&mut text, token.line());
                text
            },
            ParserError::ExpectedAnother { expected_token_type, token } => {
                let mut text = String::from_str("Expected ");
                text.append(expected_token_type.to_string().as_str());
                text.append(" instead got ");
                text.append(token.to_string().as_str());
                text.append(" at line: ");
                push_decimal(&mut text, token.line());
                text
            },
            ParserError::ExpectedOther { token } => {
                let mut text = String::from_str("Unexpected token ");
                text.append(token.to_string().as_str());
                text.append(" at line: ");
                push_decimal(&mut text, token.line());
                text
            },
        }
    }
}

} // verus!
