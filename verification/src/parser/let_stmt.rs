//! The rule for `let` statements.

use crate::ast::{Expression, Statement};
use crate::parser::model::parse_let_spec;
use crate::parser::precedence::Precedence;
use crate::parser::{optional_model, Parser};
use crate::token::TokenType;
use vstd::prelude::*;

verus! {

impl Parser {
    /// Moves on until the current token is a semicolon or the end marker.
    pub fn skip_to_semicolon(&mut self)
        requires
            old(self).wf(),
        ensures
            final(self).wf(),
            final(self)@ == old(self)@.skip_to_semicolon(),
            final(self)@.measure() <= old(self)@.measure(),
    {
        while !self.curr_token_is(TokenType::SEMICOLON) && !self.curr_token_is(TokenType::EOF)
            invariant
                self.wf(),
                self@.skip_to_semicolon() == old(self)@.skip_to_semicolon(),
                self@.measure() <= old(self)@.measure(),
            decreases self@.measure(),
        {
            self.next_token();
        }
    }

    /// Parses `let <identifier> = <expression>`, then moves on to the
    /// semicolon or the end marker. Without the identifier or the equals
    /// sign the result is `None`, and a diagnostic is recorded.
    pub fn parse_let_statement(&mut self) -> (stmt: Option<Statement>)
        requires
            old(self).wf(),
        ensures
            final(self).wf(),
            (optional_model(&stmt), final(self)@) == parse_let_spec(old(self)@),
            final(self)@.measure() <= old(self)@.measure(),
        decreases old(self)@.measure(), 7nat,
    {
        let mut stmt = Statement::new(TokenType::LET);

        if !self.expect_peek(TokenType::IDENT) {
            self.peek_error(TokenType::IDENT);
            return None;
        }
        stmt.set_let_name(
            Expression::Identifier {
                token: self.cur().clone(),
                value: self.cur().literal.clone(),
            },
        );

        if !self.expect_peek(TokenType::ASSIGN) {
            self.peek_error(TokenType::ASSIGN);
            return None;
        }
        self.next_token();
        stmt.set_value(self.parse_expression(Precedence::LOWEST));

        self.skip_to_semicolon();

        return Some(stmt);
    }
}

} // verus!
