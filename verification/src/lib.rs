//! The front end of a small expression language: a scanner that turns source
//! text into tokens, and a recursive-descent parser that turns tokens into an
//! expression tree.
//!
//! What the scanner recognizes is written down in [`scanner::lexicon`], what
//! the parser accepts in [`parser::grammar`]; the executable code is proved
//! to compute exactly that. What follows for every input is proved in
//! [`scanner::laws`] and [`parser::laws`].

pub mod ast;
pub mod error;
pub mod parser;
pub mod scanner;
pub mod text;

use vstd::prelude::*;

use ast::Expr;
use error::{syntax_errors, Error};
use parser::grammar::expression;
use parser::{agrees, Parser};
use scanner::lexicon::scan;
use scanner::Scanner;

verus! {

/// Scans `source` and parses the expression it starts with. Returns what
/// the scanner found wrong, and the tree or what the parser found wrong.
/// The parser sees every token that was scanned, whatever the scanner
/// reported.
pub fn run(source: &str) -> (outcome: (Vec<Error>, Result<Box<Expr>, Error>))
    ensures
        outcome.0@ == syntax_errors(scan(source@).errors),
        agrees(outcome.1, expression(scan(source@).tokens, 0)),
{
    let mut scanner = Scanner::new(source);
    let errors = scanner.scan_tokens();
    let mut parser = Parser::new(scanner.tokens());
    proof {
        scanner::laws::lemma_fresh_scanner_scans_all(source@);
        scanner::laws::lemma_eof_is_last_and_only(source@);
        let tokens = scan(source@).tokens;
        assert(tokens[tokens.len() - 1].token_type is Eof);
    }
    let result = parser.parse();
    (errors, result)
}

} // verus!
