use rracone::ast::{Expr, Literal};
use rracone::error::{Error, InterpreterError, ParserError, SyntaxError};
use rracone::run;
use rracone::scanner::token::{Token, TokenType};
use rracone::text::push_decimal;

fn decimal(n: usize) -> String {
    let mut text = String::new();
    push_decimal(&mut text, n);
    text
}

#[test]
fn decimal_numerals() {
    assert_eq!(decimal(0), "0");
    assert_eq!(decimal(7), "7");
    assert_eq!(decimal(10), "10");
    assert_eq!(decimal(1234567890), "1234567890");
    assert_eq!(decimal(usize::MAX), usize::MAX.to_string());
    let mut text = String::from("line ");
    push_decimal(&mut text, 42);
    assert_eq!(text, "line 42");
}

#[test]
fn syntax_error_messages() {
    assert_eq!(
        SyntaxError::UnexpectedCharacter { line: 3, character: '@' }.to_string(),
        "Unexpected Character at Line 3: @"
    );
    assert_eq!(
        SyntaxError::UnterminatedString { line: 12 }.to_string(),
        "Unterminated String at Line: 12"
    );
    assert_eq!(SyntaxError::InvalidNumber { line: 0 }.to_string(), "Invalid Number at Line: 0");
    assert_eq!(
        SyntaxError::UnterminatedMultilineComment { line: 100 }.to_string(),
        "Unterminated Multiline Comment at Line: 100"
    );
}

#[test]
fn token_type_text() {
    assert_eq!(TokenType::LeftParen.to_string(), "(");
    assert_eq!(TokenType::GreaterEqual.to_string(), ">=");
    assert_eq!(TokenType::BangEqual.to_string(), "!=");
    assert_eq!(TokenType::While.to_string(), "while");
    assert_eq!(TokenType::Eof.to_string(), "EOF");
    assert_eq!(TokenType::Identifier("foo".to_string()).to_string(), "foo");
    assert_eq!(TokenType::Number("45.67".to_string()).to_string(), "45.67");
    assert_eq!(TokenType::String("a b".to_string()).to_string(), "\"a b\"");
    assert_eq!(Token::new(TokenType::Star, 9).to_string(), "*");
}

#[test]
fn parser_error_messages() {
    assert_eq!(
        ParserError::UnexpectedEnd { token: Token::new(TokenType::Eof, 4) }.to_string(),
        "Expected expression: 4"
    );
    assert_eq!(
        ParserError::ExpectedAnother {
            expected_token_type: TokenType::RightParen,
            token: Token::new(TokenType::Number("2".to_string()), 1),
        }
        .to_string(),
        "Expected ) instead got 2 at line: 1"
    );
    assert_eq!(
        ParserError::ExpectedOther { token: Token::new(TokenType::Plus, 20) }.to_string(),
        "Unexpected token + at line: 20"
    );
}

#[test]
fn error_messages_name_the_stage() {
    assert_eq!(
        Error::from(SyntaxError::UnterminatedString { line: 1 }).to_string(),
        "Syntax Error: Unterminated String at Line: 1"
    );
    assert_eq!(
        Error::from(ParserError::UnexpectedEnd { token: Token::new(TokenType::Eof, 0) })
            .to_string(),
        "Parser Error: Expected expression: 0"
    );
    let io = std::io::Error::new(std::io::ErrorKind::NotFound, "no such script");
    assert_eq!(InterpreterError::from(io).to_string(), "Io Error: no such script");
    let io = std::io::Error::new(std::io::ErrorKind::NotFound, "no such script");
    assert_eq!(Error::from(io).to_string(), "Interpreter Error: Io Error: no such script");
    let io = std::io::Error::new(std::io::ErrorKind::Other, "x");
    assert!(matches!(Error::from(InterpreterError::from(io)), Error::Interpreter(_)));
}

#[test]
fn tree_notation() {
    let (errors, outcome) = run("-123 * (45.67)");
    assert!(errors.is_empty());
    assert_eq!(outcome.unwrap().to_string(), "(\\* (\\- 123) (group 45.67))");
    let (_, outcome) = run("1 == 2 == 3");
    assert_eq!(outcome.unwrap().to_string(), "(\\== (\\== 1 2) 3)");
    let (_, outcome) = run("!true != \"a\" + nil");
    assert_eq!(outcome.unwrap().to_string(), "(\\!= (\\! true) (\\+ \"a\" nil))");
    assert_eq!(Literal::Bool(false).to_string(), "false");
    assert_eq!(Expr::Literal(Literal::Nil).to_string(), "nil");
}

#[test]
fn run_reports_scan_errors_and_still_parses() {
    let (errors, outcome) = run("1 @ + 2");
    assert_eq!(errors.len(), 1);
    assert!(matches!(
        errors[0],
        Error::Syntax(SyntaxError::UnexpectedCharacter { line: 0, character: '@' })
    ));
    assert_eq!(outcome.unwrap().to_string(), "(\\+ 1 2)");
    let (errors, outcome) = run("(1 + 2");
    assert!(errors.is_empty());
    match outcome {
        Err(Error::Parser(ParserError::ExpectedAnother { expected_token_type, token })) => {
            assert_eq!(expected_token_type, TokenType::RightParen);
            assert_eq!(token, Token::new(TokenType::Eof, 0));
        }
        other => panic!("not a missing parenthesis: {:?}", other),
    }
}
