use rracone::ast::{Expr, Literal};
use rracone::parser::Parser;
use rracone::scanner::token::{Token, TokenType};
use rracone::scanner::lexicon::Lead;
use rracone::scanner::{is_word_part, lead_of, reserved_word_of, word_token_type, Scanner};
use rracone::text::string_of;

fn tokens_of(source: &str) -> Vec<Token> {
    let mut scanner = Scanner::new(source);
    scanner.scan_tokens();
    scanner.tokens().to_vec()
}

fn spelling(tree: &Expr, out: &mut Vec<TokenType>) {
    match tree {
        Expr::Literal(Literal::Number(text)) => out.push(TokenType::Number(text.clone())),
        Expr::Literal(Literal::String(text)) => out.push(TokenType::String(text.clone())),
        Expr::Literal(Literal::Bool(true)) => out.push(TokenType::True),
        Expr::Literal(Literal::Bool(false)) => out.push(TokenType::False),
        Expr::Literal(Literal::Nil) => out.push(TokenType::Nil),
        Expr::Unary { operator, right } => {
            out.push(operator.token_type().clone());
            spelling(right, out);
        }
        Expr::Binary { left, operator, right } => {
            spelling(left, out);
            out.push(operator.token_type().clone());
            spelling(right, out);
        }
        Expr::Grouping(inner) => {
            out.push(TokenType::LeftParen);
            spelling(inner, out);
            out.push(TokenType::RightParen);
        }
    }
}

#[test]
fn a_tree_is_written_as_the_tokens_passed_over() {
    for (source, consumed) in [
        ("1", 1),
        ("-123 * (45.67)", 6),
        ("1 == 2 == 3", 5),
        ("!(1 + 2) * \"a\" <= nil != true ; 4", 12),
        ("1 2 3", 1),
    ] {
        let tokens = tokens_of(source);
        let tree = Parser::new(&tokens).parse().unwrap();
        let mut written = Vec::new();
        spelling(&tree, &mut written);
        let passed: Vec<TokenType> =
            tokens[..consumed].iter().map(|token| token.token_type().clone()).collect();
        assert_eq!(written, passed);
    }
}

#[test]
fn every_number_token_spells_a_number() {
    let tokens = tokens_of("0 007 1.5 12.250 3. .4 99999999999999999999999999 a1 1a 1.2.3");
    let mut count = 0;
    for token in &tokens {
        if let TokenType::Number(text) = token.token_type() {
            assert!(text.parse::<f64>().is_ok());
            assert!(text.chars().all(|c| c.is_ascii_digit() || c == '.'));
            assert!(text.starts_with(|c: char| c.is_ascii_digit()));
            assert!(text.ends_with(|c: char| c.is_ascii_digit()));
            assert!(text.matches('.').count() <= 1);
            count += 1;
        }
    }
    assert_eq!(count, 10);
}

#[test]
fn no_identifier_spells_a_reserved_word() {
    let tokens = tokens_of("and andy class classes or orbit nil nile print Print var _var true");
    for token in &tokens {
        if let TokenType::Identifier(text) = token.token_type() {
            let word: Vec<char> = text.chars().collect();
            assert_eq!(reserved_word_of(&word), None);
        }
    }
    let identifiers =
        tokens.iter().filter(|t| matches!(t.token_type(), TokenType::Identifier(_))).count();
    assert_eq!(identifiers, 6);
}

#[test]
fn reserved_words_are_matched_exactly() {
    let word = |text: &str| reserved_word_of(&text.chars().collect::<Vec<char>>());
    assert_eq!(word("while"), Some(TokenType::While));
    assert_eq!(word("and"), Some(TokenType::And));
    assert_eq!(word("super"), Some(TokenType::Super));
    assert_eq!(word("this"), Some(TokenType::This));
    assert_eq!(word("While"), None);
    assert_eq!(word("whil"), None);
    assert_eq!(word("whilee"), None);
    assert_eq!(word(""), None);
}

#[test]
fn the_cursor_never_moves_backward() {
    let tokens = tokens_of("1 + ; ) 2 3");
    let mut parser = Parser::new(&tokens);
    let mut outcomes = Vec::new();
    for _ in 0..6 {
        outcomes.push(parser.parse().map(|tree| tree.to_string()).map_err(|e| e.to_string()));
    }
    assert_eq!(
        outcomes,
        vec![
            Err("Parser Error: Unexpected token ; at line: 0".to_string()),
            Err("Parser Error: Unexpected token ) at line: 0".to_string()),
            Err("Parser Error: Expected expression: 0".to_string()),
            Err("Parser Error: Expected expression: 0".to_string()),
            Err("Parser Error: Expected expression: 0".to_string()),
            Err("Parser Error: Expected expression: 0".to_string()),
        ]
    );
}

#[test]
fn a_word_is_its_reserved_word_or_an_identifier() {
    let word = |text: &str| word_token_type(&text.chars().collect::<Vec<char>>());
    assert_eq!(word("while"), TokenType::While);
    assert_eq!(word("nil"), TokenType::Nil);
    assert_eq!(word("whilst"), TokenType::Identifier("whilst".to_string()));
    assert_eq!(word("_"), TokenType::Identifier("_".to_string()));
}

#[test]
fn string_of_keeps_every_character_in_order() {
    assert_eq!(string_of(&['a', 'é', '1', '\n']), "aé1\n");
    assert_eq!(string_of(&[]), "");
}

#[test]
fn what_a_character_opens() {
    assert_eq!(lead_of('0', false), Lead::Number);
    assert_eq!(lead_of('9', false), Lead::Number);
    assert_eq!(lead_of('7', true), Lead::Number);
    assert_eq!(lead_of('a', true), Lead::Word);
    assert_eq!(lead_of('é', true), Lead::Word);
    assert_eq!(lead_of('_', false), Lead::Word);
    assert_eq!(lead_of('@', false), Lead::Stray);
    assert_eq!(lead_of('#', false), Lead::Stray);
    assert_eq!(lead_of('a', 'a'.is_alphabetic()), Lead::Word);
    assert_eq!(lead_of('@', '@'.is_alphabetic()), Lead::Stray);
}

#[test]
fn what_a_word_goes_on_with() {
    assert!(is_word_part('a', true));
    assert!(is_word_part('1', true));
    assert!(is_word_part('_', false));
    assert!(!is_word_part('+', false));
    assert!(!is_word_part(' ', ' '.is_alphanumeric()));
}

#[test]
fn a_parser_can_be_made_of_any_slice() {
    let none: Vec<Token> = Vec::new();
    let _empty = Parser::new(&none);
    let open = vec![Token::new(TokenType::Plus, 0)];
    let _unterminated = Parser::new(&open);
    let closed = vec![Token::new(TokenType::Plus, 0), Token::new(TokenType::Eof, 0)];
    let mut parser = Parser::new(&closed);
    assert!(parser.parse().is_err());
    assert!(parser.parse().is_err());
}
