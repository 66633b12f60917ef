use vstd::prelude::*;
use vstd::string::StringExecFns;

use crate::scanner::token::token_type::quoted;
use crate::scanner::token::{SpecToken, Token};

verus! {

/// A literal value.
#[derive(Debug, PartialEq)]
pub enum Literal {
    /// The decimal text of a number, as it stood in the source.
    Number(String),
    String(String),
    Bool(bool),
    Nil,
}

/// The mathematical value of a [`Literal`].
pub enum SpecLiteral {
    Number(Seq<char>),
    String(Seq<char>),
    Bool(bool),
    Nil,
}

impl View for Literal {
    type V = SpecLiteral;

    open spec fn view(&self) -> SpecLiteral {
        match self {
            Literal::Number(text) => SpecLiteral::Number(text@),
            Literal::String(text) => SpecLiteral::String(text@),
            Literal::Bool(value) => SpecLiteral::Bool(*value),
            Literal::Nil => SpecLiteral::Nil,
        }
    }
}

impl Clone for Literal {
    fn clone(&self) -> (res: Self)
        ensures
            res == *self,
    {
        match self {
            Literal::Number(text) => Literal::Number(text.clone()),
            Literal::String(text) => Literal::String(text.clone()),
            Literal::Bool(value) => Literal::Bool(*value),
            Literal::Nil => Literal::Nil,
        }
    }
}

/// An expression tree. Each node owns its operands.
#[derive(Debug, PartialEq)]
pub enum Expr {
    Literal(Literal),
    /// `operator` is `!` or `-`.
    Unary { operator: Token, right: Box<Expr> },
    Binary { left: Box<Expr>, operator: Token, right: Box<Expr> },
    /// A parenthesized expression.
    Grouping(Box<Expr>),
}

/// The mathematical value of an [`Expr`].
pub enum SpecExpr {
    Literal(SpecLiteral),
    Unary { operator: SpecToken, right: Box<SpecExpr> },
    Binary { left: Box<SpecExpr>, operator: SpecToken, right: Box<SpecExpr> },
    Grouping(Box<SpecExpr>),
}

impl View for Expr {
    type V = SpecExpr;

    open spec fn view(&self) -> SpecExpr
        decreases self,
    {
        match self {
            Expr::Literal(literal) => SpecExpr::Literal(literal@),
            Expr::Unary { operator, right } => SpecExpr::Unary {
                operator: operator@,
                right: Box::new((**right).view()),
            },
            Expr::Binary { left, operator, right } => SpecExpr::Binary {
                left: Box::new((**left).view()),
                operator: operator@,
                right: Box::new((**right).view()),
            },
            Expr::Grouping(inner) => SpecExpr::Grouping(Box::new((**inner).view())),
        }
    }
}

impl Clone for Expr {
    fn clone(&self) -> (res: Self)
        ensures
            res == *self,
        decreases self,
    {
        match self {
            Expr::Literal(literal) => Expr::Literal(literal.clone()),
            Expr::Unary { operator, right } => Expr::Unary {
                operator: operator.clone(),
                right: Box::new((&**right).clone()),
            },
            Expr::Binary { left, operator, right } => Expr::Binary {
                left: Box::new((&**left).clone()),
                operator: operator.clone(),
                right: Box::new((&**right).clone()),
            },
            Expr::Grouping(inner) => Expr::Grouping(Box::new((&**inner).clone())),
        }
    }
}

impl SpecLiteral {
    /// How this literal is shown to a reader: a number as it was written, a
    /// string between double quotes, and `true`, `false` or `nil`.
    pub open spec fn notation(self) -> Seq<char> {
        match self {
            SpecLiteral::Number(text) => text,
            SpecLiteral::String(text) => seq!['"'] + text + seq!['"'],
            SpecLiteral::Bool(true) => "true"@,
            SpecLiteral::Bool(false) => "false"@,
            SpecLiteral::Nil => "nil"@,
        }
    }
}

impl Literal {
    /// This literal as text for a reader.
    pub fn to_string(&self) -> (text: String)
        ensures
            text@ == self@.notation(),
    {
        match self {
            Literal::Number(text) => text.clone(),
            Literal::String(text) => quoted(text),
            Literal::Bool(true) => String::from_str("true"),
            Literal::Bool(false) => String::from_str("false"),
            Literal::Nil => String::from_str("nil"),
        }
    }
}

impl SpecExpr {
    /// How this tree is shown to a reader: in prefix notation, each
    /// operator behind a backslash and in parentheses with its operands, a
    /// parenthesized expression as a `group`.
    pub open spec fn notation(self) -> Seq<char>
        decreases self,
    {
        match self {
            SpecExpr::Literal(literal) => literal.notation(),
            SpecExpr::Unary { operator, right } => "(\\"@ + operator.token_type.text() + " "@
                + right.notation() + ")"@,
            SpecExpr::Binary { left, operator, right } => "(\\"@ + operator.token_type.text()
                + " "@ + left.notation() + " "@ + right.notation() + ")"@,
            SpecExpr::Grouping(inner) => "(group "@ + inner.notation() + ")"@,
        }
    }
}

impl Expr {
    /// This tree as text for a reader.
    pub fn to_string(&self) -> (text: String)
        ensures
            text@ == self@.notation(),
        decreases self,
    {
        match self {
            Expr::Literal(literal) => literal.to_string(),
            Expr::Unary { operator, right } => {
                let mut text = String::from_str("(\\");
                text.append(operator.to_string().as_str());
                text.append(" ");
                text.append((&**right).to_string().as_str());
                text.append(")");
                text
            },
            Expr::Binary { left, operator, right } => {
                let mut text = String::from_str("(\\");
                text.append(operator.to_string().as_str());
                text.append(" ");
                text.append((&**left).to_string().as_str());
                text.append(" ");
                text.append((&**right).to_string().as_str());
                text.append(")");
                text
            },
            Expr::Grouping(inner) => {
                let mut text = String::from_str("(group ");
                text.append((&**inner).to_string().as_str());
                text.append(")");
                text
            },
        }
    }
}

} // verus!
