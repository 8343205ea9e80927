//! The parser: turns the lexer's tokens into a syntax tree, by recursive
//! descent for statements and by precedence climbing for expressions.
//! Problems in the input are recorded as diagnostics; parsing goes on.

pub mod block_stmt;
pub mod expr_stmt;
pub mod helper;
pub mod laws;
pub mod let_stmt;
pub mod model;
pub mod precedence;
pub mod return_stmt;
pub mod routines;
pub mod sentinel;

use crate::ast::{Program, Statement, StmtView};
use crate::lexer::{lemma_end_marker_repeats, Lexer};
use crate::parser::model::{
    lemma_advance_measure, parse_program_spec, parse_statement_spec, parse_statements_spec,
    tokens_from, ParserView,
};
use crate::parser::routines::{
    find_routine, infix_routine_of, lemma_lookup_push, lookup_routine, prefix_routine_of,
    InfixRoutine, PrefixRoutine,
};
use crate::text::chars_of;
use crate::token::{Token, TokenType};
use vstd::prelude::*;

verus! {

/// A parser over the tokens of one lexer.
#[derive(Debug)]
pub struct Parser {
    l: Lexer,
    curr_token: Token,
    peek_token: Token,
    /// The diagnostics recorded so far, oldest first.
    pub errors: Vec<String>,
    prefix_parse_fns: Vec<(TokenType, PrefixRoutine)>,
    infix_parse_fns: Vec<(TokenType, InfixRoutine)>,
}

impl View for Parser {
    type V = ParserView;

    closed spec fn view(&self) -> ParserView {
        ParserView {
            cur: self.curr_token@,
            peek: self.peek_token@,
            rest: tokens_from(self.l@.input, self.l@.pos),
            errors: Seq::new(self.errors.len() as nat, |i: int| self.errors[i]@),
        }
    }
}

/// The texts of a vector of strings, in order.
pub open spec fn strings_model(v: &Vec<String>) -> Seq<Seq<char>> {
    Seq::new(v.len() as nat, |i: int| v[i]@)
}

/// The statements of a source text, and the diagnostics of parsing it.
pub open spec fn parse_source(input: Seq<char>) -> (Seq<StmtView>, Seq<Seq<char>>) {
    let (program, end) = parse_program_spec(ParserView::initial(tokens_from(input, 0)));
    (program, end.errors)
}

/// Parses a whole source text into a program and the diagnostics of
/// parsing it. The diagnostics are empty for a clean parse; what to do
/// with a program that has diagnostics is for the caller to decide.
pub fn parse(source: &str) -> (r: (Program<Statement>, Vec<String>))
    ensures
        r.0@ == parse_source(source@).0,
        strings_model(&r.1) == parse_source(source@).1,
{
    let l = Lexer::new(chars_of(source));
    let mut p = Parser::new(l);
    let program = p.parse_program();
    let diagnostics = clone_strings(p.errors());
    assert(strings_model(&diagnostics) =~= p@.errors);
    (program, diagnostics)
}

/// A copy of a vector of strings.
pub fn clone_strings(v: &Vec<String>) -> (r: Vec<String>)
    ensures
        r@.len() == v@.len(),
        forall|i: int| 0 <= i < v@.len() ==> (#[trigger] r@[i])@ == v@[i]@,
{
    let mut r: Vec<String> = Vec::new();
    let mut i: usize = 0;
    while i < v.len()
        invariant
            i <= v.len(),
            r.len() == i,
            forall|j: int| 0 <= j < i ==> (#[trigger] r@[j])@ == v@[j]@,
        decreases v.len() - i,
    {
        r.push(v[i].clone());
        i += 1;
    }
    r
}

/// The model of an optional statement.
pub open spec fn optional_model(stmt: &Option<Statement>) -> Option<StmtView> {
    match stmt {
        Some(s) => Some(s@),
        None => None,
    }
}

impl Parser {
    /// The representation invariant: the lexer is well formed, and the
    /// two tables hold the routines of the language.
    pub closed spec fn wf(&self) -> bool {
        &&& self.l.wf()
        &&& forall|kind: TokenType| #[trigger]
            lookup_routine(self.prefix_parse_fns@, kind) == prefix_routine_of(kind)
        &&& forall|kind: TokenType| #[trigger]
            lookup_routine(self.infix_parse_fns@, kind) == infix_routine_of(kind)
    }

    /// Enters a routine into the table of prefix routines.
    fn register_prefix(&mut self, token_type: TokenType, routine: PrefixRoutine)
        ensures
            final(self).l == old(self).l,
            final(self).curr_token == old(self).curr_token,
            final(self).peek_token == old(self).peek_token,
            final(self).errors == old(self).errors,
            final(self).infix_parse_fns == old(self).infix_parse_fns,
            forall|kind: TokenType| #[trigger]
                lookup_routine(final(self).prefix_parse_fns@, kind) == if kind == token_type {
                    Some(routine)
                } else {
                    lookup_routine(old(self).prefix_parse_fns@, kind)
                },
    {
        proof {
            lemma_lookup_push(self.prefix_parse_fns@, (token_type, routine));
        }
        self.prefix_parse_fns.push((token_type, routine));
    }

    /// Enters a routine into the table of infix routines.
    fn register_infix(&mut self, token_type: TokenType, routine: InfixRoutine)
        ensures
            final(self).l == old(self).l,
            final(self).curr_token == old(self).curr_token,
            final(self).peek_token == old(self).peek_token,
            final(self).errors == old(self).errors,
            final(self).prefix_parse_fns == old(self).prefix_parse_fns,
            forall|kind: TokenType| #[trigger]
                lookup_routine(final(self).infix_parse_fns@, kind) == if kind == token_type {
                    Some(routine)
                } else {
                    lookup_routine(old(self).infix_parse_fns@, kind)
                },
    {
        proof {
            lemma_lookup_push(self.infix_parse_fns@, (token_type, routine));
        }
        self.infix_parse_fns.push((token_type, routine));
    }

    /// The routine that parses what a token of the given kind starts.
    pub fn prefix_routine(&self, token_type: TokenType) -> (r: Option<PrefixRoutine>)
        requires
            self.wf(),
        ensures
            r == prefix_routine_of(token_type),
    {
        find_routine(&self.prefix_parse_fns, token_type)
    }

    /// The routine that parses what a token of the given kind continues.
    pub fn infix_routine(&self, token_type: TokenType) -> (r: Option<InfixRoutine>)
        requires
            self.wf(),
        ensures
            r == infix_routine_of(token_type),
    {
        find_routine(&self.infix_parse_fns, token_type)
    }

    /// A parser at the start of the lexer's remaining input, with the
    /// first two tokens read.
    pub fn new(l: Lexer) -> (p: Parser)
        requires
            l.wf(),
        ensures
            p.wf(),
            p@ == ParserView::initial(tokens_from(l@.input, l@.pos)),
    {
        let mut p = Parser {
            l,
            curr_token: Token { token_type: TokenType::ILLEGAL, literal: String::from_str("\0") },
            peek_token: Token { token_type: TokenType::ILLEGAL, literal: String::from_str("\0") },
            errors: Vec::new(),
            prefix_parse_fns: Vec::new(),
            infix_parse_fns: Vec::new(),
        };
        assert(p@.errors =~= Seq::empty());

        p.register_prefix(TokenType::IDENT, PrefixRoutine::Identifier);
        p.register_prefix(TokenType::INT, PrefixRoutine::IntegerLiteral);
        p.register_prefix(TokenType::BANG, PrefixRoutine::PrefixExpression);
        p.register_prefix(TokenType::MINUS, PrefixRoutine::PrefixExpression);
        p.register_prefix(TokenType::TRUE, PrefixRoutine::Boolean);
        p.register_prefix(TokenType::FALSE, PrefixRoutine::Boolean);
        p.register_prefix(TokenType::LPAREN, PrefixRoutine::GroupedExpression);
        p.register_prefix(TokenType::IF, PrefixRoutine::IfExpression);
        p.register_prefix(TokenType::FUNCTION, PrefixRoutine::FuncExpression);

        p.register_infix(TokenType::PLUS, InfixRoutine::InfixExpression);
        p.register_infix(TokenType::MINUS, InfixRoutine::InfixExpression);
        p.register_infix(TokenType::SLASH, InfixRoutine::InfixExpression);
        p.register_infix(TokenType::ASTERISK, InfixRoutine::InfixExpression);
        p.register_infix(TokenType::EQ, InfixRoutine::InfixExpression);
        p.register_infix(TokenType::NOTEQ, InfixRoutine::InfixExpression);
        p.register_infix(TokenType::LT, InfixRoutine::InfixExpression);
        p.register_infix(TokenType::GT, InfixRoutine::InfixExpression);
        p.register_infix(TokenType::LPAREN, InfixRoutine::CallExpression);

        p.next_token();
        p.next_token();
        p
    }

    /// Moves one token further.
    pub fn next_token(&mut self)
        requires
            old(self).wf(),
        ensures
            final(self).wf(),
            final(self)@ == old(self)@.advance(),
            final(self)@.measure() <= old(self)@.measure(),
            old(self)@.measure() > 0 ==> final(self)@.measure() < old(self)@.measure(),
    {
        proof {
            self.l.lemma_wf_bounds();
            lemma_end_marker_repeats(self.l@.input);
            lemma_advance_measure(self@);
        }
        self.curr_token = self.peek_token.clone();
        self.peek_token = self.l.next_token();
        proof {
            let input = old(self).l@.input;
            let pos = old(self).l@.pos;
            if pos < input.len() {
                assert(old(self)@.rest.drop_first() =~= self@.rest);
            }
        }
    }

    /// The token under examination.
    pub fn cur(&self) -> (t: &Token)
        ensures
            t@ == self@.cur,
    {
        &self.curr_token
    }

    /// The token after the one under examination.
    pub fn peek(&self) -> (t: &Token)
        ensures
            t@ == self@.peek,
    {
        &self.peek_token
    }

    /// Records a diagnostic.
    pub fn push_error(&mut self, message: String)
        requires
            old(self).wf(),
        ensures
            final(self).wf(),
            final(self)@ == old(self)@.with_error(message@),
            final(self)@.measure() == old(self)@.measure(),
    {
        self.errors.push(message);
        assert(self@.errors =~= old(self)@.errors.push(message@));
    }

    /// All diagnostics recorded so far, oldest first.
    pub fn errors(&self) -> (r: &Vec<String>)
        ensures
            r@.len() == self@.errors.len(),
            forall|i: int| 0 <= i < r@.len() ==> (#[trigger] r@[i])@ == self@.errors[i],
    {
        &self.errors
    }

    /// Parses a whole program: one statement after another up to the end
    /// marker. Statements that fail to parse leave a diagnostic and are
    /// left out.
    pub fn parse_program(&mut self) -> (program: Program<Statement>)
        requires
            old(self).wf(),
        ensures
            final(self).wf(),
            (program@, final(self)@) == parse_program_spec(old(self)@),
            final(self)@.cur.kind == TokenType::EOF,
    {
        let mut program = Program { statements: Vec::new() };
        assert(program@ =~= Seq::empty());
        while self.curr_token.token_type != TokenType::EOF
            invariant
                self.wf(),
                parse_statements_spec(self@, program@, false) == parse_program_spec(old(self)@),
            ensures
                self@.cur.kind == TokenType::EOF,
            decreases self@.measure(),
        {
            let ghost before = self@;
            let ghost done = program@;
            let stmt = self.parse_statement();
            match stmt {
                Some(st) => {
                    program.statements.push(st);
                    assert(program@ =~= done.push(st@));
                },
                None => {},
            };
            self.next_token();
            assert(before.measure() > 0);
        }
        program
    }

    /// Parses one statement: by its first token a `let`, a `return`, or an
    /// expression statement.
    pub fn parse_statement(&mut self) -> (stmt: Option<Statement>)
        requires
            old(self).wf(),
        ensures
            final(self).wf(),
            (optional_model(&stmt), final(self)@) == parse_statement_spec(old(self)@),
            final(self)@.measure() <= old(self)@.measure(),
        decreases old(self)@.measure(), 8nat,
    {
        match self.curr_token.token_type {
            TokenType::LET => self.parse_let_statement(),
            TokenType::RETURN => self.parse_return_statement(),
            _ => self.parse_expression_statement(),
        }
    }
}

} // verus!
