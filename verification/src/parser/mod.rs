pub mod grammar;
pub mod laws;

use vstd::prelude::*;

use crate::ast::{Expr, Literal, SpecExpr};
use crate::error::{Error, ParserError, SpecParserError};
use crate::scanner::token::{token_views, SpecToken, SpecTokenType, Token, TokenType};
use grammar::{at_end, binary, binary_rest, expression, next_boundary, operand, operator_at,
    prefix_at, primary, recovery_point, remaining, terminated, unary, Level, Parsed};

verus! {

/// A recursive-descent parser for one expression. Its only state is a
/// cursor into the tokens, which never moves backward and never leaves the
/// end-of-input token once it stands on it.
pub struct Parser<'a> {
    tokens: &'a [Token],
    current: usize,
}

/// The mathematical value of a [`Parser`].
pub struct ParserState {
    /// The tokens being parsed.
    pub tokens: Seq<SpecToken>,
    /// The index of the token under the cursor.
    pub position: nat,
}

impl ParserState {
    /// Whether an end-of-input token stands at the cursor or after it, so
    /// that reading on from the cursor ends inside the tokens. It holds of
    /// a new parser on any scanned sequence, and parsing keeps it.
    pub open spec fn ready(self) -> bool {
        terminated(self.tokens, self.position)
    }
}

impl<'a> View for Parser<'a> {
    type V = ParserState;

    closed spec fn view(&self) -> ParserState {
        ParserState { tokens: token_views(self.tokens@), position: self.current as nat }
    }
}

/// Whether `result` is what the rule outcome `parsed` stands for: the same
/// tree, or the same error as a parser error.
pub open spec fn agrees(result: Result<Box<Expr>, Error>, parsed: Parsed) -> bool {
    match parsed.result {
        Ok(tree) => result matches Ok(built) && built@ == tree,
        Err(error) => result matches Err(Error::Parser(found)) && found@ == error,
    }
}

/// Whether a rule with outcome `parsed` took a parser from `before` to
/// `after` and returned `result`.
pub open spec fn applies(
    before: ParserState,
    after: ParserState,
    result: Result<Box<Expr>, Error>,
    parsed: Parsed,
) -> bool {
    &&& after.tokens == before.tokens
    &&& after.position == before.position + parsed.consumed
    &&& after.ready()
    &&& agrees(result, parsed)
}

impl<'a> Parser<'a> {
    /// A parser at the start of `tokens`. Nothing is read yet.
    pub fn new(tokens: &'a [Token]) -> (parser: Self)
        ensures
            parser@ == (ParserState { tokens: token_views(tokens@), position: 0 }),
    {
        Self { tokens, current: 0 }
    }

    /// The token under the cursor.
    fn peek(&self) -> (token: &'a Token)
        requires
            self@.ready(),
        ensures
            self@.position < self@.tokens.len(),
            token@ == self@.tokens[self@.position as int],
    {
        &self.tokens[self.current]
    }

    /// The token just before the cursor.
    fn previous(&self) -> (token: &'a Token)
        requires
            self@.ready(),
            self@.position > 0,
        ensures
            token@ == self@.tokens[self@.position - 1],
    {
        &self.tokens[self.current - 1]
    }

    /// Whether the cursor stands on the end-of-input token.
    fn is_at_end(&self) -> (ended: bool)
        requires
            self@.ready(),
        ensures
            ended == at_end(self@.tokens, self@.position),
    {
        match self.peek().token_type() {
            TokenType::Eof => true,
            _ => false,
        }
    }

    /// Moves the cursor past the token it stands on, unless that is the
    /// end-of-input token. Returns the token just before the cursor as it
    /// then stands, or the first token if the cursor stands on that.
    fn advance(&mut self) -> (token: &'a Token)
        requires
            old(self)@.ready(),
        ensures
            final(self)@.ready(),
            final(self)@.tokens == old(self)@.tokens,
            final(self)@.position == if at_end(old(self)@.tokens, old(self)@.position) {
                old(self)@.position
            } else {
                old(self)@.position + 1
            },
            token@ == if final(self)@.position >= 1 {
                final(self)@.tokens[final(self)@.position - 1]
            } else {
                final(self)@.tokens[0]
            },
    {
        if !self.is_at_end() {
            proof {
                let tokens = self@.tokens;
                let i = choose|i: int|
                    self.current <= i < tokens.len() && (#[trigger] tokens[i]).token_type is Eof;
                assert(i > self.current);
                assert(self.tokens.len() == self.tokens@.len());
            }
            self.current += 1;
        }
        if self.current > 0 {
            self.previous()
        } else {
            self.peek()
        }
    }

    /// Whether the token under the cursor is of type `token_type`. The
    /// end-of-input token matches nothing.
    fn check(&self, token_type: &TokenType) -> (same: bool)
        requires
            self@.ready(),
        ensures
            same == (!at_end(self@.tokens, self@.position)
                && self@.tokens[self@.position as int].token_type == token_type@),
    {
        if self.is_at_end() {
            return false;
        }
        *self.peek().token_type() == *token_type
    }

    /// Passes over the token under the cursor if its type is one of
    /// `token_types`, and says whether it did.
    fn match_token_type(&mut self, token_types: &[TokenType]) -> (matched: bool)
        requires
            old(self)@.ready(),
        ensures
            final(self)@.ready(),
            final(self)@.tokens == old(self)@.tokens,
            matched == (!at_end(old(self)@.tokens, old(self)@.position) && exists|i: int|
                0 <= i < token_types@.len() && (#[trigger] token_types@[i])@
                    == old(self)@.tokens[old(self)@.position as int].token_type),
            final(self)@.position == if matched {
                old(self)@.position + 1
            } else {
                old(self)@.position
            },
    {
        let mut i: usize = 0;
        while i < token_types.len()
            invariant
                *self == *old(self),
                self@.ready(),
                i <= token_types@.len(),
                forall|j: int|
                    0 <= j < i ==> !(!at_end(self@.tokens, self@.position)
                        && (#[trigger] token_types@[j])@
                        == self@.tokens[self@.position as int].token_type),
            decreases token_types.len() - i,
        {
            if self.check(&token_types[i]) {
                self.advance();
                return true;
            }
            i += 1;
        }
        false
    }

    /// Passes over the token under the cursor if it is an operator of
    /// `level`, and says whether it did.
    fn match_operator(&mut self, level: Level) -> (matched: bool)
        requires
            old(self)@.ready(),
        ensures
            final(self)@.ready(),
            final(self)@.tokens == old(self)@.tokens,
            matched == operator_at(old(self)@.tokens, level, old(self)@.position),
            final(self)@.position == if matched {
                old(self)@.position + 1
            } else {
                old(self)@.position
            },
    {
        match level {
            Level::Equality => {
                let operators = [TokenType::BangEqual, TokenType::EqualEqual];
                let matched = self.match_token_type(&operators);
                proof {
                    assert(operators@[0]@ == SpecTokenType::BangEqual);
                    assert(operators@[1]@ == SpecTokenType::EqualEqual);
                }
                matched
            },
            Level::Comparison => {
                let operators = [
                    TokenType::Greater,
                    TokenType::GreaterEqual,
                    TokenType::Less,
                    TokenType::LessEqual,
                ];
                let matched = self.match_token_type(&operators);
                proof {
                    assert(operators@[0]@ == SpecTokenType::Greater);
                    assert(operators@[1]@ == SpecTokenType::GreaterEqual);
                    assert(operators@[2]@ == SpecTokenType::Less);
                    assert(operators@[3]@ == SpecTokenType::LessEqual);
                }
                matched
            },
            Level::Term => {
                let operators = [TokenType::Minus, TokenType::Plus];
                let matched = self.match_token_type(&operators);
                proof {
                    assert(operators@[0]@ == SpecTokenType::Minus);
                    assert(operators@[1]@ == SpecTokenType::Plus);
                }
                matched
            },
            Level::Factor => {
                let operators = [TokenType::Slash, TokenType::Star];
                let matched = self.match_token_type(&operators);
                proof {
                    assert(operators@[0]@ == SpecTokenType::Slash);
                    assert(operators@[1]@ == SpecTokenType::Star);
                }
                matched
            },
        }
    }

    /// Parses one expression from the cursor on. On success the cursor
    /// stands behind the expression; what follows it is left alone. On
    /// failure the parser recovers (see [`grammar::recovery_point`]) before
    /// it returns the error. Either way the cursor has not moved backward.
    ///
    /// The tokens must hold an end-of-input token at the cursor or after
    /// it, as every scanned sequence does.
    pub fn parse(&mut self) -> (result: Result<Box<Expr>, Error>)
        requires
            old(self)@.ready(),
        ensures
            final(self)@.ready(),
            final(self)@.tokens == old(self)@.tokens,
            agrees(result, expression(old(self)@.tokens, old(self)@.position)),
            final(self)@.position == ({
                let parsed = expression(old(self)@.tokens, old(self)@.position);
                if parsed.result is Ok {
                    old(self)@.position + parsed.consumed
                } else {
                    recovery_point(old(self)@.tokens, old(self)@.position + parsed.consumed)
                }
            }),
            old(self)@.position <= final(self)@.position < final(self)@.tokens.len(),
    {
        let parsed = self.expression();
        proof {
            laws::lemma_recovery_moves_forward(self@.tokens, self@.position);
        }
        match parsed {
            Ok(tree) => Ok(tree),
            Err(error) => {
                self.synchronize();
                Err(error)
            },
        }
    }

    /// The rule `expression`.
    fn expression(&mut self) -> (result: Result<Box<Expr>, Error>)
        requires
            old(self)@.ready(),
        ensures
            applies(
                old(self)@,
                final(self)@,
                result,
                expression(old(self)@.tokens, old(self)@.position),
            ),
        decreases remaining(old(self)@.tokens, old(self)@.position), 28nat,
    {
        self.equality()
    }

    /// The rule `equality`: comparisons joined by `!=` and `==`.
    fn equality(&mut self) -> (result: Result<Box<Expr>, Error>)
        requires
            old(self)@.ready(),
        ensures
            applies(
                old(self)@,
                final(self)@,
                result,
                binary(old(self)@.tokens, Level::Equality, old(self)@.position),
            ),
        decreases remaining(old(self)@.tokens, old(self)@.position), 27nat,
    {
        self.binary(Level::Equality)
    }

    /// The rule `comparison`: terms joined by `>`, `>=`, `<` and `<=`.
    fn comparison(&mut self) -> (result: Result<Box<Expr>, Error>)
        requires
            old(self)@.ready(),
        ensures
            applies(
                old(self)@,
                final(self)@,
                result,
                binary(old(self)@.tokens, Level::Comparison, old(self)@.position),
            ),
        decreases remaining(old(self)@.tokens, old(self)@.position), 21nat,
    {
        self.binary(Level::Comparison)
    }

    /// The rule `term`: factors joined by `-` and `+`.
    fn term(&mut self) -> (result: Result<Box<Expr>, Error>)
        requires
            old(self)@.ready(),
        ensures
            applies(
                old(self)@,
                final(self)@,
                result,
                binary(old(self)@.tokens, Level::Term, old(self)@.position),
            ),
        decreases remaining(old(self)@.tokens, old(self)@.position), 15nat,
    {
        self.binary(Level::Term)
    }

    /// The rule `factor`: unary expressions joined by `/` and `*`.
    fn factor(&mut self) -> (result: Result<Box<Expr>, Error>)
        requires
            old(self)@.ready(),
        ensures
            applies(
                old(self)@,
                final(self)@,
                result,
                binary(old(self)@.tokens, Level::Factor, old(self)@.position),
            ),
        decreases remaining(old(self)@.tokens, old(self)@.position), 9nat,
    {
        self.binary(Level::Factor)
    }

    /// One operand of the binary rule of `level`: the next tighter rule.
    fn operand(&mut self, level: Level) -> (result: Result<Box<Expr>, Error>)
        requires
            old(self)@.ready(),
        ensures
            applies(
                old(self)@,
                final(self)@,
                result,
                operand(old(self)@.tokens, level, old(self)@.position),
            ),
        decreases remaining(old(self)@.tokens, old(self)@.position), 6 * level.height() - 2,
    {
        match level {
            Level::Equality => self.comparison(),
            Level::Comparison => self.term(),
            Level::Term => self.factor(),
            Level::Factor => self.unary(),
        }
    }

    /// The binary rule of `level`: operands joined by operators of that
    /// level, folded from the left.
    fn binary(&mut self, level: Level) -> (result: Result<Box<Expr>, Error>)
        requires
            old(self)@.ready(),
        ensures
            applies(
                old(self)@,
                final(self)@,
                result,
                binary(old(self)@.tokens, level, old(self)@.position),
            ),
        decreases remaining(old(self)@.tokens, old(self)@.position), 6 * level.height() + 2,
    {
        let ghost start = self@;
        let mut expr = match self.operand(level) {
            Ok(first) => first,
            Err(error) => {
                return Err(error);
            },
        };
        loop
            invariant
                start == old(self)@,
                self@.ready(),
                self@.tokens == start.tokens,
                start.position <= self@.position,
                binary(start.tokens, level, start.position) == binary_rest(
                    start.tokens,
                    level,
                    expr@,
                    self@.position,
                ).after((self@.position - start.position) as nat),
            decreases remaining(self@.tokens, self@.position),
        {
            let ghost here = self@.position;
            let ghost left = expr@;
            if !self.match_operator(level) {
                return Ok(expr);
            }
            let operator = self.previous().clone();
            proof {
                let next = operand(start.tokens, level, (here + 1) as nat);
                assert(binary_rest(start.tokens, level, left, here) == match next.result {
                    Ok(right) => binary_rest(
                        start.tokens,
                        level,
                        SpecExpr::Binary {
                            left: Box::new(left),
                            operator: start.tokens[here as int],
                            right: Box::new(right),
                        },
                        here + 1 + next.consumed,
                    ).after(1 + next.consumed),
                    Err(_) => next.after(1),
                });
            }
            let right = match self.operand(level) {
                Ok(right) => right,
                Err(error) => {
                    return Err(error);
                },
            };
            expr = Box::new(Expr::Binary { left: expr, operator, right });
        }
    }

    /// The rule `unary`.
    fn unary(&mut self) -> (result: Result<Box<Expr>, Error>)
        requires
            old(self)@.ready(),
        ensures
            applies(old(self)@, final(self)@, result, unary(old(self)@.tokens, old(self)@.position)),
        decreases remaining(old(self)@.tokens, old(self)@.position), 1nat,
    {
        let ghost start = self@;
        let operators = [TokenType::Bang, TokenType::Minus];
        let matched = self.match_token_type(&operators);
        proof {
            assert(operators@[0]@ == SpecTokenType::Bang);
            assert(operators@[1]@ == SpecTokenType::Minus);
            assert(matched == prefix_at(start.tokens, start.position));
        }
        if matched {
            let operator = self.previous().clone();
            return match self.unary() {
                Ok(right) => Ok(Box::new(Expr::Unary { operator, right })),
                Err(error) => Err(error),
            };
        }
        self.primary()
    }

    /// The rule `primary`.
    fn primary(&mut self) -> (result: Result<Box<Expr>, Error>)
        requires
            old(self)@.ready(),
        ensures
            applies(
                old(self)@,
                final(self)@,
                result,
                primary(old(self)@.tokens, old(self)@.position),
            ),
        decreases remaining(old(self)@.tokens, old(self)@.position), 0nat,
    {
        let falses = [TokenType::False];
        if self.match_token_type(&falses) {
            proof {
                assert(falses@[0]@ == SpecTokenType::False);
            }
            return Ok(Box::new(Expr::Literal(Literal::Bool(false))));
        }
        let trues = [TokenType::True];
        if self.match_token_type(&trues) {
            proof {
                assert(trues@[0]@ == SpecTokenType::True);
            }
            return Ok(Box::new(Expr::Literal(Literal::Bool(true))));
        }
        let nils = [TokenType::Nil];
        if self.match_token_type(&nils) {
            proof {
                assert(nils@[0]@ == SpecTokenType::Nil);
            }
            return Ok(Box::new(Expr::Literal(Literal::Nil)));
        }
        proof {
            assert(falses@[0]@ == SpecTokenType::False);
            assert(trues@[0]@ == SpecTokenType::True);
            assert(nils@[0]@ == SpecTokenType::Nil);
        }
        if self.is_at_end() {
            return Err(Error::Parser(ParserError::UnexpectedEnd { token: self.peek().clone() }));
        }
        if let TokenType::Number(num) = self.peek().token_type() {
            let num = num.clone();
            self.advance();
            return Ok(Box::new(Expr::Literal(Literal::Number(num))));
        }
        if let TokenType::String(s) = self.peek().token_type() {
            let s = s.clone();
            self.advance();
            return Ok(Box::new(Expr::Literal(Literal::String(s))));
        }
        let opens = [TokenType::LeftParen];
        let opened = self.match_token_type(&opens);
        proof {
            assert(opens@[0]@ == SpecTokenType::LeftParen);
        }
        if opened {
            let expr = match self.expression() {
                Ok(inner) => inner,
                Err(error) => {
                    return Err(error);
                },
            };
            return match self.consume(TokenType::RightParen) {
                Ok(_) => Ok(Box::new(Expr::Grouping(expr))),
                Err(error) => Err(error),
            };
        }
        Err(Error::Parser(ParserError::ExpectedOther { token: self.peek().clone() }))
    }

    /// Passes over the token under the cursor if it is of type
    /// `token_type`, and returns it; otherwise leaves the cursor and
    /// reports what was found in its place.
    fn consume(&mut self, token_type: TokenType) -> (consumed: Result<&'a Token, Error>)
        requires
            old(self)@.ready(),
        ensures
            final(self)@.ready(),
            final(self)@.tokens == old(self)@.tokens,
            ({
                let found = old(self)@.tokens[old(self)@.position as int];
                if !at_end(old(self)@.tokens, old(self)@.position) && found.token_type
                    == token_type@ {
                    &&& final(self)@.position == old(self)@.position + 1
                    &&& consumed matches Ok(token) && token@ == found
                } else {
                    &&& final(self)@.position == old(self)@.position
                    &&& consumed matches Err(Error::Parser(error)) && error@
                        == (SpecParserError::ExpectedAnother {
                        expected_token_type: token_type@,
                        token: found,
                    })
                }
            }),
    {
        if self.check(&token_type) {
            return Ok(self.advance());
        }
        Err(
            Error::Parser(
                ParserError::ExpectedAnother {
                    expected_token_type: token_type,
                    token: self.peek().clone(),
                },
            ),
        )
    }

    /// Recovers from an error: drops the token under the cursor, then skips
    /// tokens until the cursor stands at the end of input, right after a
    /// `;`, or before a token that opens a statement.
    fn synchronize(&mut self)
        requires
            old(self)@.ready(),
        ensures
            final(self)@.ready(),
            final(self)@.tokens == old(self)@.tokens,
            final(self)@.position == recovery_point(old(self)@.tokens, old(self)@.position),
    {
        let ghost start = self@.position;
        self.advance();
        while !self.is_at_end()
            invariant
                self@.ready(),
                self@.tokens == old(self)@.tokens,
                self@.position > start || at_end(self@.tokens, self@.position),
                next_boundary(self@.tokens, self@.position) == recovery_point(
                    self@.tokens,
                    start,
                ),
            ensures
                self@.ready(),
                self@.tokens == old(self)@.tokens,
                self@.position == recovery_point(self@.tokens, start),
            decreases remaining(self@.tokens, self@.position),
        {
            if *self.previous().token_type() == TokenType::Semicolon {
                break;
            }
            if self.peek().token_type().starts_statement() {
                break;
            }
            self.advance();
        }
    }
}

} // verus!
