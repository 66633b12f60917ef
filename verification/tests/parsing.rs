use rracone::ast::{Expr, Literal};
use rracone::error::{Error, ParserError};
use rracone::parser::Parser;
use rracone::scanner::token::{Token, TokenType};
use rracone::scanner::Scanner;

fn tokens_of(source: &str) -> Vec<Token> {
    let mut scanner = Scanner::new(source);
    let errors = scanner.scan_tokens();
    assert!(errors.is_empty());
    scanner.tokens().to_vec()
}

fn parse(source: &str) -> Result<Box<Expr>, Error> {
    let tokens = tokens_of(source);
    Parser::new(&tokens).parse()
}

fn parser_error(source: &str) -> ParserError {
    match parse(source) {
        Err(Error::Parser(error)) => error,
        other => panic!("not a parser error: {:?}", other),
    }
}

fn num(text: &str) -> Box<Expr> {
    Box::new(Expr::Literal(Literal::Number(text.to_string())))
}

fn text(s: &str) -> Box<Expr> {
    Box::new(Expr::Literal(Literal::String(s.to_string())))
}

fn boolean(value: bool) -> Box<Expr> {
    Box::new(Expr::Literal(Literal::Bool(value)))
}

fn op(token_type: TokenType) -> Token {
    Token::new(token_type, 0)
}

fn binary(left: Box<Expr>, operator: TokenType, right: Box<Expr>) -> Box<Expr> {
    Box::new(Expr::Binary { left, operator: op(operator), right })
}

fn unary(operator: TokenType, right: Box<Expr>) -> Box<Expr> {
    Box::new(Expr::Unary { operator: op(operator), right })
}

fn group(inner: Box<Expr>) -> Box<Expr> {
    Box::new(Expr::Grouping(inner))
}

fn number_value(expr: &Expr) -> f64 {
    match expr {
        Expr::Literal(Literal::Number(text)) => text.parse::<f64>().unwrap(),
        other => panic!("not a number: {:?}", other),
    }
}

#[test]
fn literals() {
    assert_eq!(parse("1").unwrap(), num("1"));
    assert_eq!(parse("\"hi\"").unwrap(), text("hi"));
    assert_eq!(parse("true").unwrap(), boolean(true));
    assert_eq!(parse("false").unwrap(), boolean(false));
    assert_eq!(parse("nil").unwrap(), Box::new(Expr::Literal(Literal::Nil)));
}

#[test]
fn negated_number_times_group() {
    let tree = parse("-123 * (45.67)").unwrap();
    assert_eq!(
        tree,
        binary(unary(TokenType::Minus, num("123")), TokenType::Star, group(num("45.67")))
    );
    match *tree {
        Expr::Binary { left, right, .. } => {
            match *left {
                Expr::Unary { right, .. } => assert_eq!(number_value(&right), 123.0),
                other => panic!("not a unary: {:?}", other),
            }
            match *right {
                Expr::Grouping(inner) => assert_eq!(number_value(&inner), 45.67),
                other => panic!("not a group: {:?}", other),
            }
        }
        other => panic!("not a binary: {:?}", other),
    }
}

#[test]
fn equality_is_left_associative() {
    assert_eq!(
        parse("1 == 2 == 3").unwrap(),
        binary(
            binary(num("1"), TokenType::EqualEqual, num("2")),
            TokenType::EqualEqual,
            num("3")
        )
    );
}

#[test]
fn every_binary_rule_folds_from_the_left() {
    assert_eq!(
        parse("1 - 2 + 3").unwrap(),
        binary(binary(num("1"), TokenType::Minus, num("2")), TokenType::Plus, num("3"))
    );
    assert_eq!(
        parse("8 / 4 * 2").unwrap(),
        binary(binary(num("8"), TokenType::Slash, num("4")), TokenType::Star, num("2"))
    );
    assert_eq!(
        parse("1 < 2 >= 3").unwrap(),
        binary(binary(num("1"), TokenType::Less, num("2")), TokenType::GreaterEqual, num("3"))
    );
    assert_eq!(
        parse("1 != 2 == 3").unwrap(),
        binary(
            binary(num("1"), TokenType::BangEqual, num("2")),
            TokenType::EqualEqual,
            num("3")
        )
    );
}

#[test]
fn tighter_rules_bind_first() {
    assert_eq!(
        parse("1 + 2 * 3").unwrap(),
        binary(num("1"), TokenType::Plus, binary(num("2"), TokenType::Star, num("3")))
    );
    assert_eq!(
        parse("1 * 2 + 3").unwrap(),
        binary(binary(num("1"), TokenType::Star, num("2")), TokenType::Plus, num("3"))
    );
    assert_eq!(
        parse("1 == 2 < 3 + 4 * -5").unwrap(),
        binary(
            num("1"),
            TokenType::EqualEqual,
            binary(
                num("2"),
                TokenType::Less,
                binary(
                    num("3"),
                    TokenType::Plus,
                    binary(num("4"), TokenType::Star, unary(TokenType::Minus, num("5")))
                )
            )
        )
    );
    assert_eq!(
        parse("(1 + 2) * 3").unwrap(),
        binary(
            group(binary(num("1"), TokenType::Plus, num("2"))),
            TokenType::Star,
            num("3")
        )
    );
}

#[test]
fn unary_operators_nest_from_the_right() {
    assert_eq!(
        parse("--1").unwrap(),
        unary(TokenType::Minus, unary(TokenType::Minus, num("1")))
    );
    assert_eq!(
        parse("!-!true").unwrap(),
        unary(
            TokenType::Bang,
            unary(TokenType::Minus, unary(TokenType::Bang, boolean(true)))
        )
    );
}

#[test]
fn operator_keeps_its_line() {
    let tree = parse("1\n+\n2").unwrap();
    assert_eq!(
        tree,
        Box::new(Expr::Binary {
            left: num("1"),
            operator: Token::new(TokenType::Plus, 1),
            right: num("2"),
        })
    );
}

#[test]
fn missing_close_paren() {
    assert_eq!(
        parser_error("(1 + 2"),
        ParserError::ExpectedAnother {
            expected_token_type: TokenType::RightParen,
            token: Token::new(TokenType::Eof, 0),
        }
    );
    assert_eq!(
        parser_error("(1 2)"),
        ParserError::ExpectedAnother {
            expected_token_type: TokenType::RightParen,
            token: Token::new(TokenType::Number("2".to_string()), 0),
        }
    );
}

#[test]
fn end_of_input_where_an_expression_should_start() {
    assert_eq!(parser_error(""), ParserError::UnexpectedEnd { token: Token::new(TokenType::Eof, 0) });
    assert_eq!(
        parser_error("1 +\n"),
        ParserError::UnexpectedEnd { token: Token::new(TokenType::Eof, 1) }
    );
    assert_eq!(parser_error("("), ParserError::UnexpectedEnd { token: Token::new(TokenType::Eof, 0) });
    assert_eq!(parser_error("-"), ParserError::UnexpectedEnd { token: Token::new(TokenType::Eof, 0) });
}

#[test]
fn token_that_starts_no_expression() {
    assert_eq!(
        parser_error("+ 1"),
        ParserError::ExpectedOther { token: Token::new(TokenType::Plus, 0) }
    );
    assert_eq!(
        parser_error("1 * )"),
        ParserError::ExpectedOther { token: Token::new(TokenType::RightParen, 0) }
    );
    assert_eq!(
        parser_error("foo"),
        ParserError::ExpectedOther { token: Token::new(TokenType::Identifier("foo".to_string()), 0) }
    );
}

#[test]
fn trailing_tokens_are_left_alone() {
    let tokens = tokens_of("1 2");
    let mut parser = Parser::new(&tokens);
    assert_eq!(parser.parse().unwrap(), num("1"));
    assert_eq!(parser.parse().unwrap(), num("2"));
    match parser.parse() {
        Err(Error::Parser(error)) => assert_eq!(
            error,
            ParserError::UnexpectedEnd { token: Token::new(TokenType::Eof, 0) }
        ),
        other => panic!("not a parser error: {:?}", other),
    }
}

fn second_parse(source: &str) -> Result<Box<Expr>, Error> {
    let tokens = tokens_of(source);
    let mut parser = Parser::new(&tokens);
    assert!(parser.parse().is_err());
    parser.parse()
}

#[test]
fn recovery_stops_after_a_semicolon() {
    assert_eq!(second_parse("+ 1 2 ; 3").unwrap(), num("3"));
    assert_eq!(second_parse("( 1 ; 2").unwrap(), num("2"));
}

#[test]
fn recovery_stops_before_a_statement_keyword() {
    for keyword in ["class", "for", "fun", "if", "print", "return", "var", "while"] {
        let source = format!("+ 1 2 {} 3", keyword);
        match second_parse(&source) {
            Err(Error::Parser(ParserError::ExpectedOther { token })) => {
                assert!(token.token_type().starts_statement());
            }
            other => panic!("not stopped at {}: {:?}", keyword, other),
        }
    }
    assert_eq!(second_parse("+ else 1 ; 2").unwrap(), num("2"));
}

#[test]
fn recovery_drops_the_offending_token_even_if_it_is_a_boundary() {
    // The error is met at `print`, which is dropped; skipping then runs to `;`.
    assert_eq!(second_parse("print 1 ; 2").unwrap(), num("2"));
}

#[test]
fn recovery_stops_at_the_end_of_input() {
    match second_parse("+ 1 2") {
        Err(Error::Parser(error)) => assert_eq!(
            error,
            ParserError::UnexpectedEnd { token: Token::new(TokenType::Eof, 0) }
        ),
        other => panic!("not a parser error: {:?}", other),
    }
    match second_parse("") {
        Err(Error::Parser(error)) => assert_eq!(
            error,
            ParserError::UnexpectedEnd { token: Token::new(TokenType::Eof, 0) }
        ),
        other => panic!("not a parser error: {:?}", other),
    }
}

#[test]
fn eof_in_the_middle_ends_the_input() {
    let tokens = vec![
        Token::new(TokenType::Number("1".to_string()), 0),
        Token::new(TokenType::Plus, 0),
        Token::new(TokenType::Eof, 0),
        Token::new(TokenType::Number("2".to_string()), 0),
    ];
    let mut parser = Parser::new(&tokens);
    match parser.parse() {
        Err(Error::Parser(error)) => assert_eq!(
            error,
            ParserError::UnexpectedEnd { token: Token::new(TokenType::Eof, 0) }
        ),
        other => panic!("not a parser error: {:?}", other),
    }
}

#[test]
fn trees_can_be_cloned() {
    let tree = parse("-(1 + \"a\") * nil").unwrap();
    assert_eq!(tree.clone(), tree);
}
