//! The rules for expressions: precedence climbing over prefix and infix
//! routines.

use crate::ast::{
    clone_expression, exprs_model, lemma_call_model, lemma_func_model, ExprView, Expression,
    Statement, StmtView,
};
use crate::parser::model::{
    identifier_of, no_prefix_result, parse_boolean_spec,
    parse_call_arguments_spec, parse_call_spec, parse_else_spec, parse_expression_spec,
    parse_expression_statement_spec, parse_func_parameters_spec, parse_func_spec,
    parse_grouped_spec, parse_identifier_spec, parse_if_spec, parse_infix_expression_spec,
    parse_infix_loop_spec, parse_integer_spec, parse_more_arguments_spec,
    parse_more_parameters_spec, parse_prefix_expression_spec, parse_prefix_spec,
};
use crate::parser::precedence::Precedence;
use crate::parser::routines::{prefix_routine_of, InfixRoutine, PrefixRoutine};
use crate::parser::{optional_model, Parser};
use crate::text::{parse_i32, parse_i32_spec};
use crate::token::{Token, TokenType};
use vstd::prelude::*;
use vstd::string::*;

verus! {

impl Parser {
    /// Parses an expression as a statement, and moves past a semicolon
    /// that follows it. The result is never `None`.
    pub fn parse_expression_statement(&mut self) -> (stmt: Option<Statement>)
        requires
            old(self).wf(),
        ensures
            final(self).wf(),
            (optional_model(&stmt), final(self)@) == parse_expression_statement_spec(old(self)@),
            final(self)@.measure() <= old(self)@.measure(),
        decreases old(self)@.measure(), 7nat,
    {
        let mut stmt = Statement::new(self.cur().token_type);

        stmt.set_expression(self.parse_expression(Precedence::LOWEST));
        stmt.set_expression_literal();

        if self.peek_token_is(TokenType::SEMICOLON) {
            self.next_token();
        }
        Some(stmt)
    }

    /// Parses an expression whose operators bind tighter than `prec`. A
    /// token that cannot start an expression gives the sentinel, and a
    /// diagnostic.
    pub fn parse_expression(&mut self, prec: Precedence) -> (expr: Expression)
        requires
            old(self).wf(),
        ensures
            final(self).wf(),
            (expr@, final(self)@) == parse_expression_spec(old(self)@, prec),
            final(self)@.measure() <= old(self)@.measure(),
        decreases old(self)@.measure(), 5nat,
    {
        let kind = self.cur().token_type;
        let prefix = match self.prefix_routine(kind) {
            Some(prefix) => prefix,
            None => {
                self.no_prefix_parse_fn_error(kind);
                return Expression::NoExpression;
            },
        };
        let mut left = self.parse_prefix(prefix);

        while !self.peek_token_is(TokenType::SEMICOLON) && prec.rank()
            < self.peek_precedence().rank()
            invariant
                self.wf(),
                self@.measure() <= old(self)@.measure(),
                parse_infix_loop_spec(left@, self@, prec) == parse_expression_spec(
                    old(self)@,
                    prec,
                ),
            decreases self@.measure(),
        {
            let infix = match self.infix_routine(self.peek().token_type) {
                Some(infix) => infix,
                None => {
                    return left;
                },
            };
            left = match infix {
                InfixRoutine::CallExpression => self.parse_call_expression(&left),
                InfixRoutine::InfixExpression => self.parse_infix_expression(&left),
            };
        }
        left
    }

    /// Runs the prefix routine that the table holds for the current
    /// token.
    fn parse_prefix(&mut self, routine: PrefixRoutine) -> (expr: Expression)
        requires
            old(self).wf(),
            prefix_routine_of(old(self)@.cur.kind) == Some(routine),
        ensures
            final(self).wf(),
            (expr@, final(self)@) == parse_prefix_spec(old(self)@),
            final(self)@.measure() <= old(self)@.measure(),
        decreases old(self)@.measure(), 4nat,
    {
        match routine {
            PrefixRoutine::Identifier => self.parse_identifier(),
            PrefixRoutine::IntegerLiteral => {
                if parse_i32(self.cur().literal.as_str()).is_some() {
                    self.parse_integer_literal()
                } else {
                    let mut message = String::from_str("could not parse ");
                    message.append(self.cur().literal.as_str());
                    message.append(" as integer");
                    self.push_error(message);
                    Expression::NoExpression
                }
            },
            PrefixRoutine::PrefixExpression => self.parse_prefix_expression(),
            PrefixRoutine::Boolean => self.parse_boolean(),
            PrefixRoutine::GroupedExpression => self.parse_grouped_expression(),
            PrefixRoutine::IfExpression => self.parse_if_expression(),
            PrefixRoutine::FuncExpression => self.parse_func_expression(),
        }
    }

    /// Parses an operand on the current token: an expression, or the
    /// sentinel and a diagnostic at the end marker.
    fn end_of_input_operand(&mut self) -> (expr: Expression)
        requires
            old(self).wf(),
            old(self)@.cur.kind == TokenType::EOF,
        ensures
            final(self).wf(),
            (expr@, final(self)@) == no_prefix_result(old(self)@),
            final(self)@.measure() == old(self)@.measure(),
    {
        self.no_prefix_parse_fn_error(TokenType::EOF);
        Expression::NoExpression
    }

    /// Parses a prefix operation: the current token is the operator, its
    /// operand follows.
    pub fn parse_prefix_expression(&mut self) -> (expr: Expression)
        requires
            old(self).wf(),
        ensures
            final(self).wf(),
            (expr@, final(self)@) == parse_prefix_expression_spec(old(self)@),
            final(self)@.measure() <= old(self)@.measure(),
        decreases old(self)@.measure(), 3nat,
    {
        let token = self.cur().clone();
        let operator = self.cur().literal.clone();
        self.next_token();
        let right = if self.curr_token_is(TokenType::EOF) {
            self.end_of_input_operand()
        } else {
            self.parse_expression(Precedence::PREFIX)
        };
        Expression::Prefix { token, operator, right: Box::new(right) }
    }

    /// Parses an infix operation: the next token is the operator, `left_expr`
    /// its left operand. The right operand's operators must bind tighter
    /// than the operator itself.
    pub fn parse_infix_expression(&mut self, left_expr: &Expression) -> (expr: Expression)
        requires
            old(self).wf(),
        ensures
            final(self).wf(),
            (expr@, final(self)@) == parse_infix_expression_spec(left_expr@, old(self)@),
            final(self)@.measure() <= old(self)@.measure(),
            old(self)@.peek.kind != TokenType::EOF ==> final(self)@.measure() < old(
                self,
            )@.measure(),
        decreases old(self)@.measure(), 3nat,
    {
        self.next_token();
        let token = self.cur().clone();
        let operator = self.cur().literal.clone();
        let prec = self.curr_precedence();
        self.next_token();
        let right = if self.curr_token_is(TokenType::EOF) {
            self.end_of_input_operand()
        } else {
            self.parse_expression(prec)
        };
        Expression::Infix {
            token,
            left: Box::new(clone_expression(left_expr)),
            operator,
            right: Box::new(right),
        }
    }

    /// An identifier expression from the current token.
    pub fn parse_identifier(&mut self) -> (expr: Expression)
        requires
            old(self).wf(),
        ensures
            final(self).wf(),
            final(self)@ == old(self)@,
            expr@ == parse_identifier_spec(old(self)@),
    {
        Expression::Identifier {
            token: Token { token_type: TokenType::IDENT, literal: self.cur().literal.clone() },
            value: self.cur().literal.clone(),
        }
    }

    /// An integer literal from the current token, whose text must be a
    /// numeral that fits 32 bits.
    pub fn parse_integer_literal(&mut self) -> (expr: Expression)
        requires
            old(self).wf(),
            parse_i32_spec(old(self)@.cur.literal) is Some,
        ensures
            final(self).wf(),
            final(self)@ == old(self)@,
            expr@ == parse_integer_spec(old(self)@),
    {
        let value = parse_i32(self.cur().literal.as_str()).unwrap();
        Expression::IntegerLiteral {
            token: Token { token_type: TokenType::INT, literal: self.cur().literal.clone() },
            value,
        }
    }

    /// A boolean literal from the current token: true for the keyword
    /// `true`, false for any other token.
    pub fn parse_boolean(&mut self) -> (expr: Expression)
        requires
            old(self).wf(),
        ensures
            final(self).wf(),
            final(self)@ == old(self)@,
            expr@ == parse_boolean_spec(old(self)@),
    {
        Expression::BooleanLiteral {
            token: self.cur().clone(),
            value: self.curr_token_is(TokenType::TRUE),
        }
    }

    /// Parses an expression in parentheses; the current token is the
    /// opening one. Without the closing parenthesis the result is the
    /// sentinel, and a diagnostic is recorded.
    pub fn parse_grouped_expression(&mut self) -> (expr: Expression)
        requires
            old(self).wf(),
        ensures
            final(self).wf(),
            (expr@, final(self)@) == parse_grouped_spec(old(self)@),
            final(self)@.measure() <= old(self)@.measure(),
        decreases old(self)@.measure(), 3nat,
    {
        self.next_token();
        let expr = if self.curr_token_is(TokenType::EOF) {
            self.end_of_input_operand()
        } else {
            self.parse_expression(Precedence::LOWEST)
        };

        if !self.require_peek(TokenType::RPAREN) {
            return Expression::NoExpression;
        }
        expr
    }

    /// Parses a conditional; the current token is `if`. Where a brace is
    /// missing the result is the sentinel, and a diagnostic is recorded.
    pub fn parse_if_expression(&mut self) -> (expr: Expression)
        requires
            old(self).wf(),
        ensures
            final(self).wf(),
            (expr@, final(self)@) == parse_if_spec(old(self)@),
            final(self)@.measure() <= old(self)@.measure(),
        decreases old(self)@.measure(), 3nat,
    {
        let curr_token = self.cur().clone();

        self.next_token();
        let cond = if self.curr_token_is(TokenType::EOF) {
            self.end_of_input_operand()
        } else {
            self.parse_expression(Precedence::LOWEST)
        };

        if !self.require_peek(TokenType::LBRACE) {
            return Expression::NoExpression;
        }
        let consequence = self.parse_block_statement().unwrap();
        let alternative = match self.parse_else() {
            Some(alternative) => alternative,
            None => {
                return Expression::NoExpression;
            },
        };
        Expression::IfExpression {
            token: curr_token,
            condition: Box::new(cond),
            consequence: Box::new(consequence),
            alternative: Box::new(alternative),
        }
    }

    /// Parses what may follow the first block of a conditional: nothing,
    /// `else` with a block, or `else` with another conditional. The outer
    /// `None` stands for a missing brace, for which a diagnostic is
    /// recorded; the inner one for a conditional without alternative.
    pub fn parse_else(&mut self) -> (alternative: Option<Option<Statement>>)
        requires
            old(self).wf(),
        ensures
            final(self).wf(),
            (optional_alternative_model(&alternative), final(self)@) == parse_else_spec(
                old(self)@,
            ),
            final(self)@.measure() <= old(self)@.measure(),
        decreases old(self)@.measure(), 2nat,
    {
        if !self.peek_token_is(TokenType::ELSE) {
            return Some(None);
        }
        self.next_token();

        if self.peek_token_is(TokenType::IF) {
            self.next_token();
            let mut stmt = Statement::new(TokenType::IF);
            stmt.set_expression(self.parse_if_expression());
            Some(Some(stmt))
        } else {
            if !self.require_peek(TokenType::LBRACE) {
                return None;
            }
            Some(self.parse_block_statement())
        }
    }

    /// Parses a function literal; the current token is `fn`. Where the
    /// parameter list is malformed or a delimiter is missing the result is
    /// the sentinel, and a diagnostic is recorded.
    pub fn parse_func_expression(&mut self) -> (expr: Expression)
        requires
            old(self).wf(),
        ensures
            final(self).wf(),
            (expr@, final(self)@) == parse_func_spec(old(self)@),
            final(self)@.measure() <= old(self)@.measure(),
        decreases old(self)@.measure(), 3nat,
    {
        let curr_token = self.cur().clone();

        if !self.require_peek(TokenType::LPAREN) {
            return Expression::NoExpression;
        }
        let parameters = match self.parse_func_parameters() {
            Some(parameters) => parameters,
            None => {
                return Expression::NoExpression;
            },
        };

        if !self.require_peek(TokenType::LBRACE) {
            return Expression::NoExpression;
        }
        let body = self.parse_block_statement().unwrap();

        let expr = Expression::FuncExpression {
            token: curr_token,
            parameters,
            body: Box::new(body),
        };
        proof {
            lemma_func_model(&expr);
        }
        expr
    }

    /// The identifier that the current token names.
    fn current_identifier(&self) -> (expr: Expression)
        ensures
            expr@ == identifier_of(self@.cur),
    {
        Expression::Identifier { token: self.cur().clone(), value: self.cur().literal.clone() }
    }

    /// Parses a parameter list; the current token is the opening
    /// parenthesis. `None`, and a diagnostic, where a parameter is not an
    /// identifier or the closing parenthesis is missing.
    pub fn parse_func_parameters(&mut self) -> (parameters: Option<Vec<Expression>>)
        requires
            old(self).wf(),
        ensures
            final(self).wf(),
            (optional_exprs_model(&parameters), final(self)@) == parse_func_parameters_spec(
                old(self)@,
            ),
            final(self)@.measure() <= old(self)@.measure(),
    {
        let mut identifiers: Vec<Expression> = Vec::new();

        if self.peek_token_is(TokenType::RPAREN) {
            self.next_token();
            assert(exprs_model(&identifiers) =~= Seq::empty());
            return Some(identifiers);
        }
        if !self.require_peek(TokenType::IDENT) {
            return None;
        }
        let ident = self.current_identifier();
        identifiers.push(ident);
        assert(exprs_model(&identifiers) =~= seq![identifier_of(self@.cur)]);

        while self.peek_token_is(TokenType::COMMA)
            invariant
                self.wf(),
                self@.measure() <= old(self)@.measure(),
                parse_more_parameters_spec(self@, exprs_model(&identifiers))
                    == parse_func_parameters_spec(old(self)@),
            decreases self@.measure(),
        {
            self.next_token();
            if !self.require_peek(TokenType::IDENT) {
                return None;
            }
            let ghost before = exprs_model(&identifiers);
            let ident = self.current_identifier();
            identifiers.push(ident);
            assert(exprs_model(&identifiers) =~= before.push(identifier_of(self@.cur)));
        }

        if !self.require_peek(TokenType::RPAREN) {
            return None;
        }
        Some(identifiers)
    }

    /// Parses a call of `func`; the next token is the opening parenthesis.
    /// Without the closing parenthesis the result is the sentinel, and a
    /// diagnostic is recorded.
    pub fn parse_call_expression(&mut self, func: &Expression) -> (expr: Expression)
        requires
            old(self).wf(),
        ensures
            final(self).wf(),
            (expr@, final(self)@) == parse_call_spec(func@, old(self)@),
            final(self)@.measure() <= old(self)@.measure(),
            old(self)@.peek.kind != TokenType::EOF ==> final(self)@.measure() < old(
                self,
            )@.measure(),
        decreases old(self)@.measure(), 3nat,
    {
        self.next_token();
        let token = self.cur().clone();
        match self.parse_call_arguments() {
            Some(args) => {
                let expr = Expression::CallExpression {
                    token,
                    func: Box::new(clone_expression(func)),
                    args,
                };
                proof {
                    lemma_call_model(&expr);
                }
                expr
            },
            None => Expression::NoExpression,
        }
    }

    /// Parses call arguments; the current token is the opening
    /// parenthesis. `None`, and a diagnostic, without the closing
    /// parenthesis.
    pub fn parse_call_arguments(&mut self) -> (args: Option<Vec<Expression>>)
        requires
            old(self).wf(),
        ensures
            final(self).wf(),
            (optional_exprs_model(&args), final(self)@) == parse_call_arguments_spec(old(self)@),
            final(self)@.measure() <= old(self)@.measure(),
        decreases old(self)@.measure(), 2nat,
    {
        let mut args: Vec<Expression> = Vec::new();

        if self.peek_token_is(TokenType::RPAREN) {
            self.next_token();
            assert(exprs_model(&args) =~= Seq::empty());
            return Some(args);
        }
        self.next_token();
        let arg = if self.curr_token_is(TokenType::EOF) {
            self.end_of_input_operand()
        } else {
            self.parse_expression(Precedence::LOWEST)
        };
        assert(exprs_model(&args).push(arg@) =~= seq![arg@]);
        let ghost first = seq![arg@];
        args.push(arg);
        assert(exprs_model(&args) =~= first);

        while self.peek_token_is(TokenType::COMMA)
            invariant
                self.wf(),
                self@.measure() <= old(self)@.measure(),
                parse_more_arguments_spec(self@, exprs_model(&args)) == parse_call_arguments_spec(
                    old(self)@,
                ),
            decreases self@.measure(),
        {
            self.next_token();
            self.next_token();
            let arg = if self.curr_token_is(TokenType::EOF) {
                self.end_of_input_operand()
            } else {
                self.parse_expression(Precedence::LOWEST)
            };
            let ghost before = exprs_model(&args);
            args.push(arg);
            assert(exprs_model(&args) =~= before.push(arg@));
        }

        if !self.require_peek(TokenType::RPAREN) {
            return None;
        }
        Some(args)
    }
}

/// The model of what `parse_else` returns.
pub open spec fn optional_alternative_model(v: &Option<Option<Statement>>) -> Option<
    Option<StmtView>,
> {
    match v {
        Some(alternative) => Some(optional_model(alternative)),
        None => None,
    }
}

/// The models of an optional vector of expressions.
pub open spec fn optional_exprs_model(v: &Option<Vec<Expression>>) -> Option<Seq<ExprView>> {
    match v {
        Some(v) => Some(exprs_model(v)),
        None => None,
    }
}

} // verus!
