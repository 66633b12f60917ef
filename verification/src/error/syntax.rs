use vstd::prelude::*;
use vstd::string::StringExecFns;

use crate::text::{decimal, push_decimal};

verus! {

/// What the scanner can find wrong with a source text. Each carries the line
/// (counted from zero) on which it was found.
#[derive(Debug, Clone, Copy, PartialEq, Eq, Structural)]
pub enum SyntaxError {
    UnexpectedCharacter { line: usize, character: char },
    UnterminatedString { line: usize },
    InvalidNumber { line: usize },
    UnterminatedMultilineComment { line: usize },
}

impl SyntaxError {
    /// The message of this error.
    pub open spec fn message(self) -> Seq<char> {
        match self {
            SyntaxError::UnexpectedCharacter { line, character } => (
            "Unexpected Character at Line "@ + decimal(line as nat) + ": "@).push(character),
            SyntaxError::UnterminatedString { line } => "Unterminated String at Line: "@ + decimal(
                line as nat,
            ),
            SyntaxError::InvalidNumber { line } => "Invalid Number at Line: "@ + decimal(
                line as nat,
            ),
            SyntaxError::UnterminatedMultilineComment {
                line,
            } => "Unterminated Multiline Comment at Line: "@ + decimal(line as nat),
        }
    }

    /// The message of this error, for a reader.
    pub fn to_string(&self) -> (text: String)
        ensures
            text@ == self.message(),
    {
        match self {
            SyntaxError::UnexpectedCharacter { line, character } => {
                let mut text = String::from_str("Unexpected Character at Line ");
                push_decimal(&mut text, *line);
                text.append(": ");
                text.push(*character);
                text
            },
            SyntaxError::UnterminatedString { line } => {
                let mut text = String::from_str("Unterminated String at Line: ");
                push_decimal(&mut text, *line);
                text
            },
            SyntaxError::InvalidNumber { line } => {
                let mut text = String::from_str("Invalid Number at Line: ");
                push_decimal(&mut text, *line);
                text
            },
            SyntaxError::UnterminatedMultilineComment { line } => {
                let mut text = String::from_str("Unterminated Multiline Comment at Line: ");
                push_decimal(&mut text, *line);
                text
            },
        }
    }
}

} // verus!
