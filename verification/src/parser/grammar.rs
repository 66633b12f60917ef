//! The expression grammar, as functions on a token sequence and a position
//! in it.
//!
//! ```text
//! expression := equality
//! equality   := comparison (("!=" | "==") comparison)*
//! comparison := term ((">" | ">=" | "<" | "<=") term)*
//! term       := factor (("-" | "+") factor)*
//! factor     := unary (("/" | "*") unary)*
//! unary      := ("!" | "-") unary | primary
//! primary    := NUMBER | STRING | "true" | "false" | "nil" | "(" expression ")"
//! ```

use vstd::prelude::*;

use crate::ast::{SpecExpr, SpecLiteral};
use crate::error::SpecParserError;
use crate::scanner::token::{SpecToken, SpecTokenType};

verus! {

/// Whether the cursor `pos` stands on an end-of-input token. A position
/// beyond the tokens counts as the end too.
pub open spec fn at_end(tokens: Seq<SpecToken>, pos: nat) -> bool {
    pos >= tokens.len() || tokens[pos as int].token_type is Eof
}

/// Whether an end-of-input token stands at `pos` or later. A parser on such
/// tokens never runs off their end.
pub open spec fn terminated(tokens: Seq<SpecToken>, pos: nat) -> bool {
    exists|i: int| pos <= i < tokens.len() && (#[trigger] tokens[i]).token_type is Eof
}

/// How many tokens lie at `pos` and after it.
pub open spec fn remaining(tokens: Seq<SpecToken>, pos: nat) -> nat {
    if pos <= tokens.len() {
        (tokens.len() - pos) as nat
    } else {
        0
    }
}

/// The four rules for binary operators, from the loosest binding to the
/// tightest. Each is left-associative.
#[derive(Debug, Clone, Copy, PartialEq, Eq, Structural)]
pub enum Level {
    Equality,
    Comparison,
    Term,
    Factor,
}

impl Level {
    /// Whether a token of type `token_type` is an operator of this level.
    pub open spec fn accepts(self, token_type: SpecTokenType) -> bool {
        match self {
            Level::Equality => token_type is BangEqual || token_type is EqualEqual,
            Level::Comparison => token_type is Greater || token_type is GreaterEqual
                || token_type is Less || token_type is LessEqual,
            Level::Term => token_type is Minus || token_type is Plus,
            Level::Factor => token_type is Slash || token_type is Star,
        }
    }

    /// 1 for the tightest level, 4 for the loosest.
    pub open spec fn height(self) -> nat {
        match self {
            Level::Equality => 4,
            Level::Comparison => 3,
            Level::Term => 2,
            Level::Factor => 1,
        }
    }
}

/// Whether an operator of `level` stands at `pos`.
pub open spec fn operator_at(tokens: Seq<SpecToken>, level: Level, pos: nat) -> bool {
    !at_end(tokens, pos) && level.accepts(tokens[pos as int].token_type)
}

/// Whether `!` or `-` stands at `pos`.
pub open spec fn prefix_at(tokens: Seq<SpecToken>, pos: nat) -> bool {
    !at_end(tokens, pos) && (tokens[pos as int].token_type is Bang
        || tokens[pos as int].token_type is Minus)
}

/// What applying a rule at some position gives: the tree or the error, and
/// how many tokens the rule passed over before it returned.
pub struct Parsed {
    pub result: Result<SpecExpr, SpecParserError>,
    pub consumed: nat,
}

impl Parsed {
    /// The same outcome after `count` more tokens in front.
    pub open spec fn after(self, count: nat) -> Parsed {
        Parsed { result: self.result, consumed: count + self.consumed }
    }
}

/// A rule that passed over `consumed` tokens and built `tree`.
pub open spec fn accept(tree: SpecExpr, consumed: nat) -> Parsed {
    Parsed { result: Ok(tree), consumed }
}

/// A rule that passed over `consumed` tokens and then gave up with `error`.
pub open spec fn reject(error: SpecParserError, consumed: nat) -> Parsed {
    Parsed { result: Err(error), consumed }
}

/// `primary` at `pos`: a literal, or an expression in parentheses.
pub open spec fn primary(tokens: Seq<SpecToken>, pos: nat) -> Parsed
    decreases remaining(tokens, pos), 0nat,
{
    let token = tokens[pos as int];
    if at_end(tokens, pos) {
        reject(SpecParserError::UnexpectedEnd { token }, 0)
    } else {
        match token.token_type {
            SpecTokenType::False => accept(SpecExpr::Literal(SpecLiteral::Bool(false)), 1),
            SpecTokenType::True => accept(SpecExpr::Literal(SpecLiteral::Bool(true)), 1),
            SpecTokenType::Nil => accept(SpecExpr::Literal(SpecLiteral::Nil), 1),
            SpecTokenType::Number(text) => accept(SpecExpr::Literal(SpecLiteral::Number(text)), 1),
            SpecTokenType::String(text) => accept(SpecExpr::Literal(SpecLiteral::String(text)), 1),
            SpecTokenType::LeftParen => {
                let inner = expression(tokens, pos + 1);
                let close = pos + 1 + inner.consumed;
                match inner.result {
                    Ok(tree) => if !at_end(tokens, close) && tokens[close as int].token_type
                        is RightParen {
                        accept(SpecExpr::Grouping(Box::new(tree)), inner.consumed + 2)
                    } else {
                        reject(
                            SpecParserError::ExpectedAnother {
                                expected_token_type: SpecTokenType::RightParen,
                                token: tokens[close as int],
                            },
                            inner.consumed + 1,
                        )
                    },
                    Err(_) => inner.after(1),
                }
            },
            _ => reject(SpecParserError::ExpectedOther { token }, 0),
        }
    }
}

/// `unary` at `pos`: any number of `!` and `-`, then a primary. The
/// operators nest from right to left.
pub open spec fn unary(tokens: Seq<SpecToken>, pos: nat) -> Parsed
    decreases remaining(tokens, pos), 1nat,
{
    if prefix_at(tokens, pos) {
        let operand = unary(tokens, pos + 1);
        match operand.result {
            Ok(right) => accept(
                SpecExpr::Unary { operator: tokens[pos as int], right: Box::new(right) },
                operand.consumed + 1,
            ),
            Err(_) => operand.after(1),
        }
    } else {
        primary(tokens, pos)
    }
}

/// One operand of a binary rule: what the next tighter rule gives.
pub open spec fn operand(tokens: Seq<SpecToken>, level: Level, pos: nat) -> Parsed
    decreases remaining(tokens, pos), 3 * level.height() - 1,
{
    match level {
        Level::Equality => binary(tokens, Level::Comparison, pos),
        Level::Comparison => binary(tokens, Level::Term, pos),
        Level::Term => binary(tokens, Level::Factor, pos),
        Level::Factor => unary(tokens, pos),
    }
}

/// What follows the operand `left` of a binary rule: as long as an operator
/// of `level` stands at the cursor, it is taken with one more operand, and
/// the tree so far becomes its left side.
pub open spec fn binary_rest(tokens: Seq<SpecToken>, level: Level, left: SpecExpr, pos: nat) -> Parsed
    decreases remaining(tokens, pos), 3 * level.height(),
{
    if operator_at(tokens, level, pos) {
        let next = operand(tokens, level, pos + 1);
        match next.result {
            Ok(right) => binary_rest(
                tokens,
                level,
                SpecExpr::Binary {
                    left: Box::new(left),
                    operator: tokens[pos as int],
                    right: Box::new(right),
                },
                pos + 1 + next.consumed,
            ).after(1 + next.consumed),
            Err(_) => next.after(1),
        }
    } else {
        accept(left, 0)
    }
}

/// The binary rule of `level` at `pos`: operands separated by operators of
/// that level, folded from the left.
pub open spec fn binary(tokens: Seq<SpecToken>, level: Level, pos: nat) -> Parsed
    decreases remaining(tokens, pos), 3 * level.height() + 1,
{
    let first = operand(tokens, level, pos);
    match first.result {
        Ok(left) => binary_rest(tokens, level, left, pos + first.consumed).after(first.consumed),
        Err(_) => first,
    }
}

/// `expression` at `pos`.
pub open spec fn expression(tokens: Seq<SpecToken>, pos: nat) -> Parsed
    decreases remaining(tokens, pos), 14nat,
{
    binary(tokens, Level::Equality, pos)
}

/// Whether error recovery stops skipping at `pos`: at the end of input,
/// right after a `;`, or before a token that opens a statement.
pub open spec fn boundary(tokens: Seq<SpecToken>, pos: nat) -> bool {
    ||| at_end(tokens, pos)
    ||| (pos > 0 && tokens[pos - 1].token_type is Semicolon)
    ||| tokens[pos as int].token_type.starts_statement()
}

/// The first boundary at `pos` or after it.
pub open spec fn next_boundary(tokens: Seq<SpecToken>, pos: nat) -> nat
    decreases remaining(tokens, pos),
{
    if boundary(tokens, pos) {
        pos
    } else {
        next_boundary(tokens, pos + 1)
    }
}

/// Where the cursor stands after recovery from an error met at `pos`: the
/// token there is dropped, unless it is the end of input, and then tokens
/// are skipped up to the next boundary.
pub open spec fn recovery_point(tokens: Seq<SpecToken>, pos: nat) -> nat {
    if at_end(tokens, pos) {
        pos
    } else {
        next_boundary(tokens, pos + 1)
    }
}

} // verus!
