//! The rule for `return` statements.

use crate::ast::Statement;
use crate::parser::model::parse_return_spec;
use crate::parser::precedence::Precedence;
use crate::parser::{optional_model, Parser};
use crate::token::TokenType;
use vstd::prelude::*;

verus! {

impl Parser {
    /// Parses `return <expression>`, then moves on to the semicolon or the
    /// end marker.
    pub fn parse_return_statement(&mut self) -> (stmt: Option<Statement>)
        requires
            old(self).wf(),
        ensures
            final(self).wf(),
            (optional_model(&stmt), final(self)@) == parse_return_spec(old(self)@),
            final(self)@.measure() <= old(self)@.measure(),
        decreases old(self)@.measure(), 7nat,
    {
        let mut stmt = Statement::new(TokenType::RETURN);

        self.next_token();
        stmt.set_value(self.parse_expression(Precedence::LOWEST));

        self.skip_to_semicolon();

        return Some(stmt);
    }
}

} // verus!
