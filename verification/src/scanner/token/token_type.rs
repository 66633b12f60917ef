use vstd::prelude::*;
use vstd::string::StringExecFns;

verus! {

/// The lexical category of a token, together with the text it carries where
/// it carries any.
#[derive(Debug)]
pub enum TokenType {
    // Punctuation and operators.
    LeftParen,
    RightParen,
    LeftBrace,
    RightBrace,
    Comma,
    Dot,
    Minus,
    Plus,
    Semicolon,
    Slash,
    Star,
    Bang,
    BangEqual,
    Equal,
    EqualEqual,
    Greater,
    GreaterEqual,
    Less,
    LessEqual,
    // Literals.
    Identifier(String),
    String(String),
    /// The decimal text of a numeric literal: one or more digits, optionally
    /// followed by `.` and one or more digits. The value of the token is the
    /// number that this text spells.
    Number(String),
    // Reserved words.
    And,
    Class,
    Else,
    False,
    For,
    Fun,
    If,
    Nil,
    Or,
    Print,
    Return,
    Super,
    This,
    True,
    Var,
    While,
    /// End of input.
    Eof,
}

/// The mathematical value of a [`TokenType`]: the same categories, with
/// texts as sequences of characters.
pub enum SpecTokenType {
    LeftParen,
    RightParen,
    LeftBrace,
    RightBrace,
    Comma,
    Dot,
    Minus,
    Plus,
    Semicolon,
    Slash,
    Star,
    Bang,
    BangEqual,
    Equal,
    EqualEqual,
    Greater,
    GreaterEqual,
    Less,
    LessEqual,
    Identifier(Seq<char>),
    String(Seq<char>),
    Number(Seq<char>),
    And,
    Class,
    Else,
    False,
    For,
    Fun,
    If,
    Nil,
    Or,
    Print,
    Return,
    Super,
    This,
    True,
    Var,
    While,
    Eof,
}

impl View for TokenType {
    type V = SpecTokenType;

    open spec fn view(&self) -> SpecTokenType {
        match self {
            TokenType::LeftParen => SpecTokenType::LeftParen,
            TokenType::RightParen => SpecTokenType::RightParen,
            TokenType::LeftBrace => SpecTokenType::LeftBrace,
            TokenType::RightBrace => SpecTokenType::RightBrace,
            TokenType::Comma => SpecTokenType::Comma,
            TokenType::Dot => SpecTokenType::Dot,
            TokenType::Minus => SpecTokenType::Minus,
            TokenType::Plus => SpecTokenType::Plus,
            TokenType::Semicolon => SpecTokenType::Semicolon,
            TokenType::Slash => SpecTokenType::Slash,
            TokenType::Star => SpecTokenType::Star,
            TokenType::Bang => SpecTokenType::Bang,
            TokenType::BangEqual => SpecTokenType::BangEqual,
            TokenType::Equal => SpecTokenType::Equal,
            TokenType::EqualEqual => SpecTokenType::EqualEqual,
            TokenType::Greater => SpecTokenType::Greater,
            TokenType::GreaterEqual => SpecTokenType::GreaterEqual,
            TokenType::Less => SpecTokenType::Less,
            TokenType::LessEqual => SpecTokenType::LessEqual,
            TokenType::Identifier(text) => SpecTokenType::Identifier(text@),
            TokenType::String(text) => SpecTokenType::String(text@),
            TokenType::Number(text) => SpecTokenType::Number(text@),
            TokenType::And => SpecTokenType::And,
            TokenType::Class => SpecTokenType::Class,
            TokenType::Else => SpecTokenType::Else,
            TokenType::False => SpecTokenType::False,
            TokenType::For => SpecTokenType::For,
            TokenType::Fun => SpecTokenType::Fun,
            TokenType::If => SpecTokenType::If,
            TokenType::Nil => SpecTokenType::Nil,
            TokenType::Or => SpecTokenType::Or,
            TokenType::Print => SpecTokenType::Print,
            TokenType::Return => SpecTokenType::Return,
            TokenType::Super => SpecTokenType::Super,
            TokenType::This => SpecTokenType::This,
            TokenType::True => SpecTokenType::True,
            TokenType::Var => SpecTokenType::Var,
            TokenType::While => SpecTokenType::While,
            TokenType::Eof => SpecTokenType::Eof,
        }
    }
}

impl SpecTokenType {
    /// Whether a token of this type opens a statement: the places where
    /// error recovery stops skipping.
    pub open spec fn starts_statement(self) -> bool {
        match self {
            SpecTokenType::Class
            | SpecTokenType::For
            | SpecTokenType::Fun
            | SpecTokenType::If
            | SpecTokenType::Print
            | SpecTokenType::Return
            | SpecTokenType::Var
            | SpecTokenType::While => true,
            _ => false,
        }
    }

    /// How a token of this type is shown to a reader: an operator or a
    /// reserved word as it is written, an identifier or a number by its
    /// text, a string by its text between double quotes, and the end of
    /// input as `EOF`.
    pub open spec fn text(self) -> Seq<char> {
        match self {
            SpecTokenType::LeftParen => "("@,
            SpecTokenType::RightParen => ")"@,
            SpecTokenType::LeftBrace => "{"@,
            SpecTokenType::RightBrace => "}"@,
            SpecTokenType::Comma => ","@,
            SpecTokenType::Dot => "."@,
            SpecTokenType::Minus => "-"@,
            SpecTokenType::Plus => "+"@,
            SpecTokenType::Semicolon => ";"@,
            SpecTokenType::Slash => "/"@,
            SpecTokenType::Star => "*"@,
            SpecTokenType::Bang => "!"@,
            SpecTokenType::BangEqual => "!="@,
            SpecTokenType::Equal => "="@,
            SpecTokenType::EqualEqual => "=="@,
            SpecTokenType::Greater => ">"@,
            SpecTokenType::GreaterEqual => ">="@,
            SpecTokenType::Less => "<"@,
            SpecTokenType::LessEqual => "<="@,
            SpecTokenType::And => "and"@,
            SpecTokenType::Class => "class"@,
            SpecTokenType::Else => "else"@,
            SpecTokenType::False => "false"@,
            SpecTokenType::For => "for"@,
            SpecTokenType::Fun => "fun"@,
            SpecTokenType::If => "if"@,
            SpecTokenType::Nil => "nil"@,
            SpecTokenType::Or => "or"@,
            SpecTokenType::Print => "print"@,
            SpecTokenType::Return => "return"@,
            SpecTokenType::Super => "super"@,
            SpecTokenType::This => "this"@,
            SpecTokenType::True => "true"@,
            SpecTokenType::Var => "var"@,
            SpecTokenType::While => "while"@,
            SpecTokenType::Eof => "EOF"@,
            SpecTokenType::Identifier(text) => text,
            SpecTokenType::String(text) => seq!['"'] + text + seq!['"'],
            SpecTokenType::Number(text) => text,
        }
    }
}

impl Clone for TokenType {
    fn clone(&self) -> (res: Self)
        ensures
            res == *self,
    {
        match self {
            TokenType::LeftParen => TokenType::LeftParen,
            TokenType::RightParen => TokenType::RightParen,
            TokenType::LeftBrace => TokenType::LeftBrace,
            TokenType::RightBrace => TokenType::RightBrace,
            TokenType::Comma => TokenType::Comma,
            TokenType::Dot => TokenType::Dot,
            TokenType::Minus => TokenType::Minus,
            TokenType::Plus => TokenType::Plus,
            TokenType::Semicolon => TokenType::Semicolon,
            TokenType::Slash => TokenType::Slash,
            TokenType::Star => TokenType::Star,
            TokenType::Bang => TokenType::Bang,
            TokenType::BangEqual => TokenType::BangEqual,
            TokenType::Equal => TokenType::Equal,
            TokenType::EqualEqual => TokenType::EqualEqual,
            TokenType::Greater => TokenType::Greater,
            TokenType::GreaterEqual => TokenType::GreaterEqual,
            TokenType::Less => TokenType::Less,
            TokenType::LessEqual => TokenType::LessEqual,
            TokenType::Identifier(text) => TokenType::Identifier(text.clone()),
            TokenType::String(text) => TokenType::String(text.clone()),
            TokenType::Number(text) => TokenType::Number(text.clone()),
            TokenType::And => TokenType::And,
            TokenType::Class => TokenType::Class,
            TokenType::Else => TokenType::Else,
            TokenType::False => TokenType::False,
            TokenType::For => TokenType::For,
            TokenType::Fun => TokenType::Fun,
            TokenType::If => TokenType::If,
            TokenType::Nil => TokenType::Nil,
            TokenType::Or => TokenType::Or,
            TokenType::Print => TokenType::Print,
            TokenType::Return => TokenType::Return,
            TokenType::Super => TokenType::Super,
            TokenType::This => TokenType::This,
            TokenType::True => TokenType::True,
            TokenType::Var => TokenType::Var,
            TokenType::While => TokenType::While,
            TokenType::Eof => TokenType::Eof,
        }
    }
}

impl PartialEq for TokenType {
    fn eq(&self, other: &Self) -> (res: bool) {
        match (self, other) {
            (TokenType::LeftParen, TokenType::LeftParen) => true,
            (TokenType::RightParen, TokenType::RightParen) => true,
            (TokenType::LeftBrace, TokenType::LeftBrace) => true,
            (TokenType::RightBrace, TokenType::RightBrace) => true,
            (TokenType::Comma, TokenType::Comma) => true,
            (TokenType::Dot, TokenType::Dot) => true,
            (TokenType::Minus, TokenType::Minus) => true,
            (TokenType::Plus, TokenType::Plus) => true,
            (TokenType::Semicolon, TokenType::Semicolon) => true,
            (TokenType::Slash, TokenType::Slash) => true,
            (TokenType::Star, TokenType::Star) => true,
            (TokenType::Bang, TokenType::Bang) => true,
            (TokenType::BangEqual, TokenType::BangEqual) => true,
            (TokenType::Equal, TokenType::Equal) => true,
            (TokenType::EqualEqual, TokenType::EqualEqual) => true,
            (TokenType::Greater, TokenType::Greater) => true,
            (TokenType::GreaterEqual, TokenType::GreaterEqual) => true,
            (TokenType::Less, TokenType::Less) => true,
            (TokenType::LessEqual, TokenType::LessEqual) => true,
            (TokenType::Identifier(a), TokenType::Identifier(b)) => *a == *b,
            (TokenType::String(a), TokenType::String(b)) => *a == *b,
            (TokenType::Number(a), TokenType::Number(b)) => *a == *b,
            (TokenType::And, TokenType::And) => true,
            (TokenType::Class, TokenType::Class) => true,
            (TokenType::Else, TokenType::Else) => true,
            (TokenType::False, TokenType::False) => true,
            (TokenType::For, TokenType::For) => true,
            (TokenType::Fun, TokenType::Fun) => true,
            (TokenType::If, TokenType::If) => true,
            (TokenType::Nil, TokenType::Nil) => true,
            (TokenType::Or, TokenType::Or) => true,
            (TokenType::Print, TokenType::Print) => true,
            (TokenType::Return, TokenType::Return) => true,
            (TokenType::Super, TokenType::Super) => true,
            (TokenType::This, TokenType::This) => true,
            (TokenType::True, TokenType::True) => true,
            (TokenType::Var, TokenType::Var) => true,
            (TokenType::While, TokenType::While) => true,
            (TokenType::Eof, TokenType::Eof) => true,
            _ => false,
        }
    }
}

/// Two token types are equal when they are the same category and carry the
/// same text.
impl vstd::std_specs::cmp::PartialEqSpecImpl for TokenType {
    open spec fn obeys_eq_spec() -> bool {
        true
    }

    open spec fn eq_spec(&self, other: &Self) -> bool {
        self@ == other@
    }
}

impl TokenType {
    /// Whether a token of this type opens a statement.
    pub fn starts_statement(&self) -> (b: bool)
        ensures
            b == self@.starts_statement(),
    {
        match self {
            TokenType::Class
            | TokenType::For
            | TokenType::Fun
            | TokenType::If
            | TokenType::Print
            | TokenType::Return
            | TokenType::Var
            | TokenType::While => true,
            _ => false,
        }
    }

    /// This token type as text for a reader.
    pub fn to_string(&self) -> (text: String)
        ensures
            text@ == self@.text(),
    {
        match self {
            TokenType::LeftParen => String::from_str("("),
            TokenType::RightParen => String::from_str(")"),
            TokenType::LeftBrace => String::from_str("{"),
            TokenType::RightBrace => String::from_str("}"),
            TokenType::Comma => String::from_str(","),
            TokenType::Dot => String::from_str("."),
            TokenType::Minus => String::from_str("-"),
            TokenType::Plus => String::from_str("+"),
            TokenType::Semicolon => String::from_str(";"),
            TokenType::Slash => String::from_str("/"),
            TokenType::Star => String::from_str("*"),
            TokenType::Bang => String::from_str("!"),
            TokenType::BangEqual => String::from_str("!="),
            TokenType::Equal => String::from_str("="),
            TokenType::EqualEqual => String::from_str("=="),
            TokenType::Greater => String::from_str(">"),
            TokenType::GreaterEqual => String::from_str(">="),
            TokenType::Less => String::from_str("<"),
            TokenType::LessEqual => String::from_str("<="),
            TokenType::And => String::from_str("and"),
            TokenType::Class => String::from_str("class"),
            TokenType::Else => String::from_str("else"),
            TokenType::False => String::from_str("false"),
            TokenType::For => String::from_str("for"),
            TokenType::Fun => String::from_str("fun"),
            TokenType::If => String::from_str("if"),
            TokenType::Nil => String::from_str("nil"),
            TokenType::Or => String::from_str("or"),
            TokenType::Print => String::from_str("print"),
            TokenType::Return => String::from_str("return"),
            TokenType::Super => String::from_str("super"),
            TokenType::This => String::from_str("this"),
            TokenType::True => String::from_str("true"),
            TokenType::Var => String::from_str("var"),
            TokenType::While => String::from_str("while"),
            TokenType::Eof => String::from_str("EOF"),
            TokenType::Identifier(text) => text.clone(),
            TokenType::String(text) => quoted(text),
            TokenType::Number(text) => text.clone(),
        }
    }
}

/// `text` between double quotes.
pub fn quoted(text: &String) -> (shown: String)
    ensures
        shown@ == seq!['"'] + text@ + seq!['"'],
{
    let mut shown = String::new();
    shown.push('"');
    shown.append(text.as_str());
    shown.push('"');
    proof {
        assert(shown@ =~= seq!['"'] + text@ + seq!['"']);
    }
    shown
}

} // verus!
