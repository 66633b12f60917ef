use rracone::error::{Error, SyntaxError};
use rracone::scanner::token::{Token, TokenType};
use rracone::scanner::Scanner;

fn scan(source: &str) -> (Vec<(TokenType, usize)>, Vec<Error>) {
    let mut scanner = Scanner::new(source);
    let errors = scanner.scan_tokens();
    let tokens = scanner
        .tokens()
        .iter()
        .map(|token| (token.token_type().clone(), token.line()))
        .collect();
    (tokens, errors)
}

fn types(source: &str) -> Vec<TokenType> {
    scan(source).0.into_iter().map(|(token_type, _)| token_type).collect()
}

fn syntax_errors(source: &str) -> Vec<SyntaxError> {
    scan(source)
        .1
        .into_iter()
        .map(|error| match error {
            Error::Syntax(error) => error,
            other => panic!("not a syntax error: {:?}", other),
        })
        .collect()
}

fn number(text: &str) -> TokenType {
    TokenType::Number(text.to_string())
}

fn identifier(text: &str) -> TokenType {
    TokenType::Identifier(text.to_string())
}

fn string(text: &str) -> TokenType {
    TokenType::String(text.to_string())
}

fn value(token_type: &TokenType) -> f64 {
    match token_type {
        TokenType::Number(text) => text.parse::<f64>().unwrap(),
        other => panic!("not a number: {:?}", other),
    }
}

#[test]
fn empty_source_gives_only_eof() {
    let (tokens, errors) = scan("");
    assert_eq!(tokens, vec![(TokenType::Eof, 0)]);
    assert!(errors.is_empty());
}

#[test]
fn whitespace_and_comments_give_only_eof() {
    let (tokens, errors) = scan("  \t\r\n// nothing here\n   // nor here");
    assert_eq!(tokens, vec![(TokenType::Eof, 2)]);
    assert!(errors.is_empty());
}

#[test]
fn comment_stops_before_the_newline() {
    let (tokens, errors) = scan("// one\n+");
    assert_eq!(tokens, vec![(TokenType::Plus, 1), (TokenType::Eof, 1)]);
    assert!(errors.is_empty());
}

#[test]
fn single_character_tokens() {
    assert_eq!(
        types("(){},.-+;*/"),
        vec![
            TokenType::LeftParen,
            TokenType::RightParen,
            TokenType::LeftBrace,
            TokenType::RightBrace,
            TokenType::Comma,
            TokenType::Dot,
            TokenType::Minus,
            TokenType::Plus,
            TokenType::Semicolon,
            TokenType::Star,
            TokenType::Slash,
            TokenType::Eof,
        ]
    );
}

#[test]
fn two_character_operators_use_one_character_of_lookahead() {
    assert_eq!(
        types("! != = == < <= > >="),
        vec![
            TokenType::Bang,
            TokenType::BangEqual,
            TokenType::Equal,
            TokenType::EqualEqual,
            TokenType::Less,
            TokenType::LessEqual,
            TokenType::Greater,
            TokenType::GreaterEqual,
            TokenType::Eof,
        ]
    );
    assert_eq!(
        types("!!===<=>"),
        vec![
            TokenType::Bang,
            TokenType::BangEqual,
            TokenType::EqualEqual,
            TokenType::LessEqual,
            TokenType::Greater,
            TokenType::Eof,
        ]
    );
}

#[test]
fn integer_literal_is_one_number() {
    let (tokens, errors) = scan("123");
    assert_eq!(tokens, vec![(number("123"), 0), (TokenType::Eof, 0)]);
    assert_eq!(value(&tokens[0].0), 123.0);
    assert!(errors.is_empty());
}

#[test]
fn long_integer_literal_keeps_every_digit() {
    let digits = "123456789012345678901234567890";
    let tokens = types(digits);
    assert_eq!(tokens, vec![number(digits), TokenType::Eof]);
    assert_eq!(value(&tokens[0]), 123456789012345678901234567890.0);
}

#[test]
fn fraction_belongs_to_the_number() {
    let tokens = types("123.45");
    assert_eq!(tokens, vec![number("123.45"), TokenType::Eof]);
    assert_eq!(value(&tokens[0]), 123.45);
}

#[test]
fn period_without_digit_is_a_dot() {
    let tokens = types("123.");
    assert_eq!(tokens, vec![number("123"), TokenType::Dot, TokenType::Eof]);
    assert_eq!(value(&tokens[0]), 123.0);
}

#[test]
fn second_period_ends_the_number() {
    assert_eq!(
        types("1.2.3"),
        vec![number("1.2"), TokenType::Dot, number("3"), TokenType::Eof]
    );
    assert_eq!(
        types("1.foo"),
        vec![number("1"), TokenType::Dot, identifier("foo"), TokenType::Eof]
    );
    assert_eq!(types(".5"), vec![TokenType::Dot, number("5"), TokenType::Eof]);
}

#[test]
fn string_literal_keeps_its_text() {
    let (tokens, errors) = scan("\"abc\"");
    assert_eq!(tokens, vec![(string("abc"), 0), (TokenType::Eof, 0)]);
    assert!(errors.is_empty());
    assert_eq!(types("\"\""), vec![string(""), TokenType::Eof]);
    assert_eq!(types("\"a\\\"b"), vec![string("a\\"), identifier("b"), TokenType::Eof]);
}

#[test]
fn newlines_inside_a_string_are_counted_and_kept() {
    let (tokens, errors) = scan("\"a\nb\n\" +\n-");
    assert_eq!(
        tokens,
        vec![
            (string("a\nb\n"), 2),
            (TokenType::Plus, 2),
            (TokenType::Minus, 3),
            (TokenType::Eof, 3),
        ]
    );
    assert!(errors.is_empty());
}

#[test]
fn unterminated_string_is_an_error_and_no_token() {
    let (tokens, _) = scan("\"abc");
    assert_eq!(tokens, vec![(TokenType::Eof, 0)]);
    assert_eq!(syntax_errors("\"abc"), vec![SyntaxError::UnterminatedString { line: 0 }]);
}

#[test]
fn unterminated_string_reports_the_line_it_ran_out_on() {
    let (tokens, _) = scan("1\n\"ab\nc");
    assert_eq!(tokens, vec![(number("1"), 0), (TokenType::Eof, 2)]);
    assert_eq!(syntax_errors("1\n\"ab\nc"), vec![SyntaxError::UnterminatedString { line: 2 }]);
}

#[test]
fn identifiers_and_reserved_words() {
    assert_eq!(
        types("and class else false for fun if nil or print return super this true var while"),
        vec![
            TokenType::And,
            TokenType::Class,
            TokenType::Else,
            TokenType::False,
            TokenType::For,
            TokenType::Fun,
            TokenType::If,
            TokenType::Nil,
            TokenType::Or,
            TokenType::Print,
            TokenType::Return,
            TokenType::Super,
            TokenType::This,
            TokenType::True,
            TokenType::Var,
            TokenType::While,
            TokenType::Eof,
        ]
    );
    assert_eq!(
        types("While whilex _while wh ile a1_b é"),
        vec![
            identifier("While"),
            identifier("whilex"),
            identifier("_while"),
            identifier("wh"),
            identifier("ile"),
            identifier("a1_b"),
            identifier("é"),
            TokenType::Eof,
        ]
    );
}

#[test]
fn reserved_word_is_never_an_identifier() {
    assert_eq!(types("while"), vec![TokenType::While, TokenType::Eof]);
    for word in [
        "and", "class", "else", "false", "for", "fun", "if", "nil", "or", "print", "return",
        "super", "this", "true", "var", "while",
    ] {
        let tokens = types(word);
        assert_eq!(tokens.len(), 2);
        assert!(!matches!(tokens[0], TokenType::Identifier(_)));
    }
}

#[test]
fn unexpected_characters_are_reported_and_skipped() {
    let (tokens, _) = scan("1 @ 2\n# 3");
    assert_eq!(
        tokens,
        vec![(number("1"), 0), (number("2"), 0), (number("3"), 1), (TokenType::Eof, 1)]
    );
    assert_eq!(
        syntax_errors("1 @ 2\n# 3"),
        vec![
            SyntaxError::UnexpectedCharacter { line: 0, character: '@' },
            SyntaxError::UnexpectedCharacter { line: 1, character: '#' },
        ]
    );
}

#[test]
fn errors_accumulate_in_order() {
    assert_eq!(
        syntax_errors("@\n$ \"open"),
        vec![
            SyntaxError::UnexpectedCharacter { line: 0, character: '@' },
            SyntaxError::UnexpectedCharacter { line: 1, character: '$' },
            SyntaxError::UnterminatedString { line: 1 },
        ]
    );
}

#[test]
fn scanning_twice_gives_equal_tokens() {
    let source = "-123 * (45.67) != \"x\" // done\nfoo";
    let (first, first_errors) = scan(source);
    let (second, second_errors) = scan(source);
    assert_eq!(first, second);
    assert_eq!(first.len(), 10);
    assert_eq!(first_errors.len(), second_errors.len());
}

#[test]
fn eof_is_last_and_only_once() {
    for source in ["", "1 + 2", "\"open", "@ @", "a.b(c);"] {
        let tokens = types(source);
        let count = tokens.iter().filter(|t| **t == TokenType::Eof).count();
        assert_eq!(count, 1);
        assert_eq!(tokens.last(), Some(&TokenType::Eof));
    }
}

#[test]
fn scanning_again_only_adds_another_eof() {
    let mut scanner = Scanner::new("1 +");
    assert!(scanner.scan_tokens().is_empty());
    assert_eq!(scanner.tokens().len(), 3);
    assert!(scanner.scan_tokens().is_empty());
    let tokens: Vec<TokenType> =
        scanner.tokens().iter().map(|token| token.token_type().clone()).collect();
    assert_eq!(tokens, vec![number("1"), TokenType::Plus, TokenType::Eof, TokenType::Eof]);
}

#[test]
fn token_accessors_return_what_was_given() {
    let token = Token::new(identifier("x"), 7);
    assert_eq!(token.token_type(), &identifier("x"));
    assert_eq!(token.line(), 7);
    assert_eq!(token.clone(), token);
}

#[test]
fn token_types_compare_by_category_and_text() {
    assert_eq!(number("1"), number("1"));
    assert_ne!(number("1"), number("1.0"));
    assert_ne!(number("1"), string("1"));
    assert_ne!(identifier("a"), identifier("b"));
    assert_ne!(TokenType::Less, TokenType::LessEqual);
    assert!(TokenType::Class.starts_statement());
    assert!(!TokenType::Else.starts_statement());
}
