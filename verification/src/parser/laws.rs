//! What holds of every parse.

use vstd::prelude::*;

use crate::ast::{SpecExpr, SpecLiteral};
use crate::parser::grammar::{at_end, binary, binary_rest, boundary, expression, next_boundary,
    operand, operator_at, prefix_at, primary, recovery_point, remaining, terminated, unary, Level,
    Parsed};
use crate::scanner::token::{SpecToken, SpecTokenType};

verus! {

/// The type of the token that a literal is written as.
pub open spec fn literal_type(literal: SpecLiteral) -> SpecTokenType {
    match literal {
        SpecLiteral::Number(text) => SpecTokenType::Number(text),
        SpecLiteral::String(text) => SpecTokenType::String(text),
        SpecLiteral::Bool(true) => SpecTokenType::True,
        SpecLiteral::Bool(false) => SpecTokenType::False,
        SpecLiteral::Nil => SpecTokenType::Nil,
    }
}

/// The token types that `tree` is written as, from left to right.
pub open spec fn spelling(tree: SpecExpr) -> Seq<SpecTokenType>
    decreases tree,
{
    match tree {
        SpecExpr::Literal(literal) => seq![literal_type(literal)],
        SpecExpr::Unary { operator, right } => seq![operator.token_type] + spelling(*right),
        SpecExpr::Binary { left, operator, right } => spelling(*left) + seq![operator.token_type]
            + spelling(*right),
        SpecExpr::Grouping(inner) => seq![SpecTokenType::LeftParen] + spelling(*inner)
            + seq![SpecTokenType::RightParen],
    }
}

/// The types of the tokens from `from` up to, not including, `to`.
pub open spec fn types_between(tokens: Seq<SpecToken>, from: nat, to: nat) -> Seq<SpecTokenType> {
    Seq::new((to - from) as nat, |i: int| tokens[from + i].token_type)
}

/// The binary rule that makes trees of rank `rank`, for ranks 2 to 5.
pub open spec fn level_of(rank: nat) -> Level {
    if rank == 2 {
        Level::Factor
    } else if rank == 3 {
        Level::Term
    } else if rank == 4 {
        Level::Comparison
    } else {
        Level::Equality
    }
}

/// Whether `tree` is one that the rule of rank `rank` can build: 0 for
/// `primary`, 1 for `unary`, 2 to 5 for `factor`, `term`, `comparison` and
/// `equality`.
///
/// An operator's right operand is of the next tighter rank, and its left
/// operand of its own: trees lean to the left. What stands in parentheses
/// is of any rank.
pub open spec fn shaped(tree: SpecExpr, rank: nat) -> bool
    decreases tree, rank,
{
    if rank == 0 {
        match tree {
            SpecExpr::Literal(_) => true,
            SpecExpr::Grouping(inner) => shaped(*inner, 5),
            _ => false,
        }
    } else if rank == 1 {
        shaped(tree, 0) || match tree {
            SpecExpr::Unary { operator, right } => (operator.token_type is Bang
                || operator.token_type is Minus) && shaped(*right, 1),
            _ => false,
        }
    } else if rank <= 5 {
        shaped(tree, (rank - 1) as nat) || match tree {
            SpecExpr::Binary { left, operator, right } => level_of(rank).accepts(
                operator.token_type,
            ) && shaped(*left, rank) && shaped(*right, (rank - 1) as nat),
            _ => false,
        }
    } else {
        false
    }
}

/// Whether no token from `from` up to, not including, `to` is the end of
/// input, and all of them exist.
pub open spec fn inside(tokens: Seq<SpecToken>, from: nat, to: nat) -> bool {
    &&& to <= tokens.len()
    &&& forall|i: int| from <= i < to ==> !((#[trigger] tokens[i]).token_type is Eof)
}

/// Whether the outcome `parsed` of a rule of rank `rank` applied at `pos`
/// is true to the tokens: the rule passed over tokens that exist, none of
/// them the end of input, and a tree it built is of that rank and is
/// written exactly as the tokens passed over.
pub open spec fn faithful(tokens: Seq<SpecToken>, pos: nat, parsed: Parsed, rank: nat) -> bool {
    &&& inside(tokens, pos, pos + parsed.consumed)
    &&& match parsed.result {
        Ok(tree) => shaped(tree, rank) && spelling(tree) == types_between(
            tokens,
            pos,
            pos + parsed.consumed,
        ),
        Err(_) => true,
    }
}

/// `primary` is true to the tokens.
pub proof fn lemma_primary_is_faithful(tokens: Seq<SpecToken>, pos: nat)
    requires
        pos <= tokens.len(),
    ensures
        faithful(tokens, pos, primary(tokens, pos), 0),
    decreases remaining(tokens, pos), 0nat,
{
    let parsed = primary(tokens, pos);
    if !at_end(tokens, pos) {
        let token = tokens[pos as int];
        match token.token_type {
            SpecTokenType::LeftParen => {
                lemma_expression_is_faithful(tokens, pos + 1);
                let inner = expression(tokens, pos + 1);
                let close = pos + 1 + inner.consumed;
                if let Ok(tree) = inner.result {
                    if !at_end(tokens, close) && tokens[close as int].token_type is RightParen {
                        assert(spelling(SpecExpr::Grouping(Box::new(tree))) =~= types_between(
                            tokens,
                            pos,
                            pos + parsed.consumed,
                        ));
                    }
                }
            },
            SpecTokenType::False | SpecTokenType::True | SpecTokenType::Nil | SpecTokenType::Number(
                _,
            ) | SpecTokenType::String(_) => {
                let tree = parsed.result->Ok_0;
                assert(spelling(tree) =~= types_between(tokens, pos, pos + 1));
            },
            _ => {},
        }
    }
}

/// `unary` is true to the tokens.
pub proof fn lemma_unary_is_faithful(tokens: Seq<SpecToken>, pos: nat)
    requires
        pos <= tokens.len(),
    ensures
        faithful(tokens, pos, unary(tokens, pos), 1),
    decreases remaining(tokens, pos), 1nat,
{
    if prefix_at(tokens, pos) {
        lemma_unary_is_faithful(tokens, pos + 1);
        let inner = unary(tokens, pos + 1);
        if let Ok(right) = inner.result {
            let tree = SpecExpr::Unary { operator: tokens[pos as int], right: Box::new(right) };
            assert(spelling(tree) =~= types_between(tokens, pos, pos + 1 + inner.consumed));
        }
    } else {
        lemma_primary_is_faithful(tokens, pos);
    }
}

/// An operand of a binary rule is true to the tokens.
pub proof fn lemma_operand_is_faithful(tokens: Seq<SpecToken>, level: Level, pos: nat)
    requires
        pos <= tokens.len(),
    ensures
        faithful(tokens, pos, operand(tokens, level, pos), level.height()),
    decreases remaining(tokens, pos), 3 * level.height() - 1,
{
    match level {
        Level::Equality => lemma_binary_is_faithful(tokens, Level::Comparison, pos),
        Level::Comparison => lemma_binary_is_faithful(tokens, Level::Term, pos),
        Level::Term => lemma_binary_is_faithful(tokens, Level::Factor, pos),
        Level::Factor => lemma_unary_is_faithful(tokens, pos),
    }
}

/// What a binary rule adds to a left operand that is true to the tokens
/// from `start` to `pos` is true to the tokens from `start` on.
pub proof fn lemma_binary_rest_is_faithful(
    tokens: Seq<SpecToken>,
    level: Level,
    left: SpecExpr,
    start: nat,
    pos: nat,
)
    requires
        start <= pos <= tokens.len(),
        faithful(tokens, start, Parsed { result: Ok(left), consumed: (pos - start) as nat }, level.height() + 1),
    ensures
        faithful(
            tokens,
            start,
            binary_rest(tokens, level, left, pos).after((pos - start) as nat),
            level.height() + 1,
        ),
    decreases remaining(tokens, pos), 3 * level.height(),
{
    let rank = level.height() + 1;
    assert(level_of(rank) == level);
    if operator_at(tokens, level, pos) {
        lemma_operand_is_faithful(tokens, level, pos + 1);
        let next = operand(tokens, level, pos + 1);
        if let Ok(right) = next.result {
            let tree = SpecExpr::Binary {
                left: Box::new(left),
                operator: tokens[pos as int],
                right: Box::new(right),
            };
            let end = pos + 1 + next.consumed;
            assert(spelling(tree) =~= types_between(tokens, start, end));
            assert(shaped(tree, rank));
            lemma_binary_rest_is_faithful(tokens, level, tree, start, end);
        }
    }
}

/// A binary rule is true to the tokens.
pub proof fn lemma_binary_is_faithful(tokens: Seq<SpecToken>, level: Level, pos: nat)
    requires
        pos <= tokens.len(),
    ensures
        faithful(tokens, pos, binary(tokens, level, pos), level.height() + 1),
    decreases remaining(tokens, pos), 3 * level.height() + 1,
{
    lemma_operand_is_faithful(tokens, level, pos);
    let first = operand(tokens, level, pos);
    if let Ok(left) = first.result {
        lemma_binary_rest_is_faithful(tokens, level, left, pos, pos + first.consumed);
    }
}

/// `expression` is true to the tokens: the tree it builds is written
/// exactly as the tokens it passed over, with each operator's operands
/// grouped by precedence and to the left.
pub proof fn lemma_expression_is_faithful(tokens: Seq<SpecToken>, pos: nat)
    requires
        pos <= tokens.len(),
    ensures
        faithful(tokens, pos, expression(tokens, pos), 5),
    decreases remaining(tokens, pos), 14nat,
{
    lemma_binary_is_faithful(tokens, Level::Equality, pos);
}

/// Recovery stops at a boundary, and at the first one behind the dropped
/// token: nothing between is a boundary.
pub proof fn lemma_next_boundary_is_first(tokens: Seq<SpecToken>, pos: nat)
    ensures
        pos <= next_boundary(tokens, pos),
        boundary(tokens, next_boundary(tokens, pos)),
        forall|i: nat| pos <= i < next_boundary(tokens, pos) ==> !boundary(tokens, i),
        pos <= tokens.len() ==> next_boundary(tokens, pos) <= tokens.len(),
    decreases remaining(tokens, pos),
{
    if !boundary(tokens, pos) {
        lemma_next_boundary_is_first(tokens, pos + 1);
    }
}

/// Recovery never moves the cursor backward, nor past the first
/// end-of-input token.
pub proof fn lemma_recovery_moves_forward(tokens: Seq<SpecToken>, pos: nat)
    requires
        terminated(tokens, pos),
    ensures
        pos <= recovery_point(tokens, pos),
        terminated(tokens, recovery_point(tokens, pos)),
{
    let i = choose|i: int| pos <= i < tokens.len() && (#[trigger] tokens[i]).token_type is Eof;
    if !at_end(tokens, pos) {
        lemma_next_boundary_is_first(tokens, pos + 1);
        let stop = next_boundary(tokens, pos + 1);
        if stop > i {
            assert(boundary(tokens, i as nat));
        }
    }
}

} // verus!
