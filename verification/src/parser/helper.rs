//! Small steps of the parser: looking at the lookahead tokens, moving on
//! conditionally, and recording diagnostics.

use crate::parser::model::{no_prefix_message, peek_message};
use crate::parser::precedence::Precedence;
use crate::parser::{clone_strings, strings_model, Parser};
use crate::token::TokenType;
use vstd::prelude::*;
use vstd::string::*;

verus! {

impl Parser {
    /// Whether the current token is of the given kind.
    pub fn curr_token_is(&self, token_type: TokenType) -> (r: bool)
        ensures
            r == self@.cur_is(token_type),
    {
        self.cur().token_type == token_type
    }

    /// Whether the next token is of the given kind.
    pub fn peek_token_is(&self, token_type: TokenType) -> (r: bool)
        ensures
            r == self@.peek_is(token_type),
    {
        self.peek().token_type == token_type
    }

    /// Moves on if the next token is of the given kind, and says whether
    /// it was.
    pub fn expect_peek(&mut self, token_type: TokenType) -> (r: bool)
        requires
            old(self).wf(),
        ensures
            final(self).wf(),
            (r, final(self)@) == old(self)@.expect_peek(token_type),
            final(self)@.measure() <= old(self)@.measure(),
            r && token_type != TokenType::EOF ==> final(self)@.measure() < old(self)@.measure(),
    {
        if self.peek_token_is(token_type) {
            self.next_token();
            return true;
        }
        false
    }

    /// Records that the next token is not of the expected kind.
    pub fn peek_error(&mut self, token_type: TokenType)
        requires
            old(self).wf(),
        ensures
            final(self).wf(),
            final(self)@ == old(self)@.with_error(peek_message(token_type, old(self)@.peek.kind)),
            final(self)@.measure() == old(self)@.measure(),
    {
        let mut message = String::from_str("expected token=");
        message.append(token_type.name());
        message.append(", got ");
        message.append(self.peek().token_type.name());
        self.push_error(message);
    }

    /// Moves on if the next token is of the given kind; records a
    /// diagnostic if it is not.
    pub fn require_peek(&mut self, token_type: TokenType) -> (r: bool)
        requires
            old(self).wf(),
        ensures
            final(self).wf(),
            (r, final(self)@) == old(self)@.require_peek(token_type),
            final(self)@.measure() <= old(self)@.measure(),
            r && token_type != TokenType::EOF ==> final(self)@.measure() < old(self)@.measure(),
    {
        if self.expect_peek(token_type) {
            return true;
        }
        self.peek_error(token_type);
        false
    }

    /// Records that no expression can start with a token of the given kind.
    pub fn no_prefix_parse_fn_error(&mut self, token_type: TokenType)
        requires
            old(self).wf(),
        ensures
            final(self).wf(),
            final(self)@ == old(self)@.with_error(no_prefix_message(token_type)),
            final(self)@.measure() == old(self)@.measure(),
    {
        let mut message = String::from_str("no prefix parse function for ");
        message.append(token_type.name());
        self.push_error(message);
    }

    /// Whether parsing has gone well so far: `Ok` without diagnostics,
    /// else `Err` with all of them, oldest first, for the caller to show
    /// before it gives up.
    pub fn check_parse_errors(&self) -> (r: Result<(), Vec<String>>)
        ensures
            match r {
                Ok(_) => self@.errors.len() == 0,
                Err(diagnostics) => self@.errors.len() > 0 && strings_model(&diagnostics)
                    == self@.errors,
            },
    {
        if self.errors().len() == 0 {
            return Ok(());
        }
        let diagnostics = clone_strings(self.errors());
        assert(strings_model(&diagnostics) =~= self@.errors);
        Err(diagnostics)
    }

    /// The level at which the next token binds.
    pub fn peek_precedence(&self) -> (p: Precedence)
        ensures
            p == Precedence::of(self@.peek.kind),
    {
        Precedence::lookup_precedence(self.peek().token_type)
    }

    /// The level at which the current token binds.
    pub fn curr_precedence(&self) -> (p: Precedence)
        ensures
            p == Precedence::of(self@.cur.kind),
    {
        Precedence::lookup_precedence(self.cur().token_type)
    }
}

} // verus!
