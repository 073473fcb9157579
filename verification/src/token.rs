//! Lexical tokens of the expression language.

use vstd::prelude::*;
use vstd::string::*;
use crate::strutil::i64_to_string;
use crate::float::f64_to_string;

verus! {

/// One lexical unit. Keywords are recognized case-insensitively; a float
/// literal carries the bit pattern of its IEEE binary64 value.
#[derive(Debug, PartialEq)]
pub enum Token {
    And,
    Or,
    Not,
    Between,
    Like,
    Escape,
    In,
    Is,
    True,
    False,
    Null,
    Equal,
    NotEqual,
    GreaterThan,
    GreaterOrEqual,
    LessThan,
    LessOrEqual,
    Plus,
    Minus,
    Star,
    Slash,
    Percent,
    LeftParen,
    RightParen,
    Comma,
    Identifier(String),
    StringLiteral(String),
    IntegerLiteral(i64),
    FloatLiteral(u64),
    Eof,
}

/// Equality of tokens, comparing payload strings by their characters.
pub open spec fn token_eq(a: Token, b: Token) -> bool {
    match (a, b) {
        (Token::Identifier(x), Token::Identifier(y)) => x@ == y@,
        (Token::StringLiteral(x), Token::StringLiteral(y)) => x@ == y@,
        (Token::IntegerLiteral(x), Token::IntegerLiteral(y)) => x == y,
        (Token::FloatLiteral(x), Token::FloatLiteral(y)) => x == y,
        (Token::And, Token::And) => true,
        (Token::Or, Token::Or) => true,
        (Token::Not, Token::Not) => true,
        (Token::Between, Token::Between) => true,
        (Token::Like, Token::Like) => true,
        (Token::Escape, Token::Escape) => true,
        (Token::In, Token::In) => true,
        (Token::Is, Token::Is) => true,
        (Token::True, Token::True) => true,
        (Token::False, Token::False) => true,
        (Token::Null, Token::Null) => true,
        (Token::Equal, Token::Equal) => true,
        (Token::NotEqual, Token::NotEqual) => true,
        (Token::GreaterThan, Token::GreaterThan) => true,
        (Token::GreaterOrEqual, Token::GreaterOrEqual) => true,
        (Token::LessThan, Token::LessThan) => true,
        (Token::LessOrEqual, Token::LessOrEqual) => true,
        (Token::Plus, Token::Plus) => true,
        (Token::Minus, Token::Minus) => true,
        (Token::Star, Token::Star) => true,
        (Token::Slash, Token::Slash) => true,
        (Token::Percent, Token::Percent) => true,
        (Token::LeftParen, Token::LeftParen) => true,
        (Token::RightParen, Token::RightParen) => true,
        (Token::Comma, Token::Comma) => true,
        (Token::Eof, Token::Eof) => true,
        _ => false,
    }
}

impl Token {
    /// Whether two tokens are the same unit with the same payload.
    pub fn same(&self, other: &Token) -> (r: bool)
        ensures
            r == token_eq(*self, *other),
    {
        match (self, other) {
            (Token::Identifier(x), Token::Identifier(y)) => crate::strutil::str_eq(
                x.as_str(),
                y.as_str(),
            ),
            (Token::StringLiteral(x), Token::StringLiteral(y)) => crate::strutil::str_eq(
                x.as_str(),
                y.as_str(),
            ),
            (Token::IntegerLiteral(x), Token::IntegerLiteral(y)) => *x == *y,
            (Token::FloatLiteral(x), Token::FloatLiteral(y)) => *x == *y,
            (Token::And, Token::And) => true,
            (Token::Or, Token::Or) => true,
            (Token::Not, Token::Not) => true,
            (Token::Between, Token::Between) => true,
            (Token::Like, Token::Like) => true,
            (Token::Escape, Token::Escape) => true,
            (Token::In, Token::In) => true,
            (Token::Is, Token::Is) => true,
            (Token::True, Token::True) => true,
            (Token::False, Token::False) => true,
            (Token::Null, Token::Null) => true,
            (Token::Equal, Token::Equal) => true,
            (Token::NotEqual, Token::NotEqual) => true,
            (Token::GreaterThan, Token::GreaterThan) => true,
            (Token::GreaterOrEqual, Token::GreaterOrEqual) => true,
            (Token::LessThan, Token::LessThan) => true,
            (Token::LessOrEqual, Token::LessOrEqual) => true,
            (Token::Plus, Token::Plus) => true,
            (Token::Minus, Token::Minus) => true,
            (Token::Star, Token::Star) => true,
            (Token::Slash, Token::Slash) => true,
            (Token::Percent, Token::Percent) => true,
            (Token::LeftParen, Token::LeftParen) => true,
            (Token::RightParen, Token::RightParen) => true,
            (Token::Comma, Token::Comma) => true,
            (Token::Eof, Token::Eof) => true,
            _ => false,
        }
    }

    /// A short human-readable rendering, used in diagnostics.
    pub fn describe(&self) -> String {
        match self {
            Token::And => String::from_str("AND"),
            Token::Or => String::from_str("OR"),
            Token::Not => String::from_str("NOT"),
            Token::Between => String::from_str("BETWEEN"),
            Token::Like => String::from_str("LIKE"),
            Token::Escape => String::from_str("ESCAPE"),
            Token::In => String::from_str("IN"),
            Token::Is => String::from_str("IS"),
            Token::True => String::from_str("TRUE"),
            Token::False => String::from_str("FALSE"),
            Token::Null => String::from_str("NULL"),
            Token::Equal => String::from_str("="),
            Token::NotEqual => String::from_str("<>"),
            Token::GreaterThan => String::from_str(">"),
            Token::GreaterOrEqual => String::from_str(">="),
            Token::LessThan => String::from_str("<"),
            Token::LessOrEqual => String::from_str("<="),
            Token::Plus => String::from_str("+"),
            Token::Minus => String::from_str("-"),
            Token::Star => String::from_str("*"),
            Token::Slash => String::from_str("/"),
            Token::Percent => String::from_str("%"),
            Token::LeftParen => String::from_str("("),
            Token::RightParen => String::from_str(")"),
            Token::Comma => String::from_str(","),
            Token::Identifier(s) => {
                let mut m = String::from_str("identifier '");
                m.append(s.as_str());
                m.append("'");
                m
            },
            Token::StringLiteral(s) => {
                let mut m = String::from_str("string '");
                m.append(s.as_str());
                m.append("'");
                m
            },
            Token::IntegerLiteral(n) => {
                let mut m = String::from_str("integer ");
                let d = i64_to_string(*n);
                m.append(d.as_str());
                m
            },
            Token::FloatLiteral(b) => {
                let mut m = String::from_str("float ");
                let d = f64_to_string(*b);
                m.append(d.as_str());
                m
            },
            Token::Eof => String::from_str("end of input"),
        }
    }
}

} // verus!
