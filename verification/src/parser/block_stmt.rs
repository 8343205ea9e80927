//! The rule for blocks.

use crate::ast::{lemma_block_model, stmts_model, Statement};
use crate::parser::model::{parse_block_spec, parse_statements_spec};
use crate::parser::Parser;
use crate::token::TokenType;
use vstd::prelude::*;

verus! {

impl Parser {
    /// Parses a block: the statements after the opening brace, which is
    /// the current token, up to the closing brace or the end marker.
    /// Statements that fail to parse are left out. The result is never
    /// `None`.
    pub fn parse_block_statement(&mut self) -> (stmt: Option<Statement>)
        requires
            old(self).wf(),
        ensures
            final(self).wf(),
            stmt is Some,
            (stmt->0@, final(self)@) == parse_block_spec(old(self)@),
            final(self)@.measure() <= old(self)@.measure(),
        decreases old(self)@.measure(), 10nat,
    {
        let token = self.cur().clone();
        let mut statements: Vec<Statement> = Vec::new();

        self.next_token();
        let ghost start = self@;
        assert(stmts_model(&statements) =~= Seq::empty());

        while !self.curr_token_is(TokenType::RBRACE) && !self.curr_token_is(TokenType::EOF)
            invariant
                self.wf(),
                self@.measure() <= old(self)@.measure(),
                parse_statements_spec(self@, stmts_model(&statements), true)
                    == parse_statements_spec(start, Seq::empty(), true),
            decreases self@.measure(),
        {
            let ghost before = self@;
            let ghost done = stmts_model(&statements);
            let parsed_stmt = self.parse_statement();
            match parsed_stmt {
                Some(st) => {
                    statements.push(st);
                    assert(stmts_model(&statements) =~= done.push(st@));
                },
                None => {},
            }
            self.next_token();
            assert(before.measure() > 0);
        }

        let stmt = Statement::BlockStatement { token, statements };
        proof {
            lemma_block_model(&stmt);
        }
        return Some(stmt);
    }
}

} // verus!
