//! Operator precedence: how tightly each token binds as an infix operator.

use crate::token::TokenType;
use vstd::prelude::*;

verus! {

/// The precedence levels, from loosest to tightest.
#[derive(Clone, Copy, Debug, PartialEq, Eq, Structural, PartialOrd, Ord)]
pub enum Precedence {
    BLANK,
    LOWEST,
    EQUALS,
    LESSGREATER,
    SUM,
    PRODUCT,
    PREFIX,
    CALL,
}

impl Precedence {
    /// The position of a level in the order of levels.
    pub open spec fn rank_spec(self) -> int {
        match self {
            Precedence::BLANK => 0,
            Precedence::LOWEST => 1,
            Precedence::EQUALS => 2,
            Precedence::LESSGREATER => 3,
            Precedence::SUM => 4,
            Precedence::PRODUCT => 5,
            Precedence::PREFIX => 6,
            Precedence::CALL => 7,
        }
    }

    /// The position of a level in the order of levels.
    pub fn rank(&self) -> (r: u8)
        ensures
            r == self.rank_spec(),
    {
        match self {
            Precedence::BLANK => 0,
            Precedence::LOWEST => 1,
            Precedence::EQUALS => 2,
            Precedence::LESSGREATER => 3,
            Precedence::SUM => 4,
            Precedence::PRODUCT => 5,
            Precedence::PREFIX => 6,
            Precedence::CALL => 7,
        }
    }

    /// The level at which a token binds as an infix operator: equality
    /// below comparison below sums below products below calls; every
    /// other token binds at the lowest level.
    pub open spec fn of(token_type: TokenType) -> Precedence {
        match token_type {
            TokenType::EQ => Precedence::EQUALS,
            TokenType::NOTEQ => Precedence::EQUALS,
            TokenType::LT => Precedence::LESSGREATER,
            TokenType::GT => Precedence::LESSGREATER,
            TokenType::PLUS => Precedence::SUM,
            TokenType::MINUS => Precedence::SUM,
            TokenType::SLASH => Precedence::PRODUCT,
            TokenType::ASTERISK => Precedence::PRODUCT,
            TokenType::LPAREN => Precedence::CALL,
            _ => Precedence::LOWEST,
        }
    }

    /// The level at which a token binds as an infix operator.
    pub fn lookup_precedence(token_type: TokenType) -> (p: Precedence)
        ensures
            p == Precedence::of(token_type),
    {
        match token_type {
            TokenType::EQ => Precedence::EQUALS,
            TokenType::NOTEQ => Precedence::EQUALS,
            TokenType::LT => Precedence::LESSGREATER,
            TokenType::GT => Precedence::LESSGREATER,
            TokenType::PLUS => Precedence::SUM,
            TokenType::MINUS => Precedence::SUM,
            TokenType::SLASH => Precedence::PRODUCT,
            TokenType::ASTERISK => Precedence::PRODUCT,
            TokenType::LPAREN => Precedence::CALL,
            _ => Precedence::LOWEST,
        }
    }
}

} // verus!
