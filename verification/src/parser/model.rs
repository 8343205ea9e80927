//! The mathematical model of the parser: a state made of the current
//! token, the token after it and the tokens still to come, and the parse
//! of each grammar rule as a function from state to result and state.
//!
//! Rules that parse one part after another compare how much input is left
//! before they go on. These comparisons make the definitions well
//! founded; they hold in every state, since no rule ever goes back in the
//! input (`laws::lemma_expression_follows` and its companions). Rules
//! that parse an operand look at the current token first: at the end
//! marker no expression starts, and the operand is what parsing an
//! expression gives there, the sentinel and a diagnostic
//! (`laws::lemma_no_expression_at_end`).

use crate::ast::{new_statement, ExprView, StmtView};
use crate::lexer::{lemma_next_token_advances, next_token_spec};
use crate::parser::precedence::Precedence;
use crate::parser::routines::{infix_routine_of, prefix_routine_of, InfixRoutine, PrefixRoutine};
use crate::text::parse_i32_spec;
use crate::token::{TokenType, TokenView};
use vstd::prelude::*;

verus! {

/// The token that marks the end of the input.
pub open spec fn end_token() -> TokenView {
    TokenView { kind: TokenType::EOF, literal: seq!['\0'] }
}

/// The token both lookahead slots hold before the first token is read.
pub open spec fn blank_token() -> TokenView {
    TokenView { kind: TokenType::ILLEGAL, literal: "\0"@ }
}

/// The tokens of `input` from position `pos` on, up to the end of the
/// input.
pub open spec fn tokens_from(input: Seq<char>, pos: int) -> Seq<TokenView>
    decreases input.len() - pos,
{
    if 0 <= pos < input.len() {
        proof {
            lemma_next_token_advances(input, pos);
        }
        seq![next_token_spec(input, pos).0] + tokens_from(input, next_token_spec(input, pos).1)
    } else {
        Seq::empty()
    }
}

/// The state of a parser.
pub struct ParserView {
    /// The token under examination.
    pub cur: TokenView,
    /// The token after it.
    pub peek: TokenView,
    /// The tokens after those two; past their end, every token is the end
    /// marker.
    pub rest: Seq<TokenView>,
    /// The diagnostics recorded so far, oldest first.
    pub errors: Seq<Seq<char>>,
}

impl ParserView {
    /// The state before any token is read.
    pub open spec fn start(tokens: Seq<TokenView>) -> ParserView {
        ParserView {
            cur: blank_token(),
            peek: blank_token(),
            rest: tokens,
            errors: Seq::empty(),
        }
    }

    /// The state of a new parser: the first two tokens read.
    pub open spec fn initial(tokens: Seq<TokenView>) -> ParserView {
        ParserView::start(tokens).advance().advance()
    }

    /// The state one token further.
    pub open spec fn advance(self) -> ParserView {
        if self.rest.len() > 0 {
            ParserView {
                cur: self.peek,
                peek: self.rest[0],
                rest: self.rest.drop_first(),
                errors: self.errors,
            }
        } else {
            ParserView { cur: self.peek, peek: end_token(), rest: self.rest, errors: self.errors }
        }
    }

    /// The state with one more diagnostic.
    pub open spec fn with_error(self, message: Seq<char>) -> ParserView {
        ParserView {
            cur: self.cur,
            peek: self.peek,
            rest: self.rest,
            errors: self.errors.push(message),
        }
    }

    /// How much input is left: it never grows while parsing, and shrinks
    /// with every token read until only end markers remain.
    pub open spec fn measure(self) -> nat {
        3 * self.rest.len() + (if self.peek.kind != TokenType::EOF {
            2nat
        } else {
            0nat
        }) + (if self.cur.kind != TokenType::EOF {
            1nat
        } else {
            0nat
        })
    }

    /// Whether the current token is of the given kind.
    pub open spec fn cur_is(self, kind: TokenType) -> bool {
        self.cur.kind == kind
    }

    /// Whether the next token is of the given kind.
    pub open spec fn peek_is(self, kind: TokenType) -> bool {
        self.peek.kind == kind
    }

    /// Moves on if the next token is of the given kind.
    pub open spec fn expect_peek(self, kind: TokenType) -> (bool, ParserView) {
        if self.peek_is(kind) {
            (true, self.advance())
        } else {
            (false, self)
        }
    }

    /// Moves on if the next token is of the given kind, and records a
    /// diagnostic if it is not.
    pub open spec fn require_peek(self, kind: TokenType) -> (bool, ParserView) {
        if self.peek_is(kind) {
            (true, self.advance())
        } else {
            (false, self.with_error(peek_message(kind, self.peek.kind)))
        }
    }

    /// Moves on until the current token is a semicolon or the end marker.
    pub open spec fn skip_to_semicolon(self) -> ParserView
        decreases self.measure(),
    {
        if self.cur_is(TokenType::SEMICOLON) || self.cur_is(TokenType::EOF) {
            self
        } else {
            self.advance().skip_to_semicolon()
        }
    }
}

/// Reading a token never leaves more input, and leaves less unless only
/// end markers remain.
pub proof fn lemma_advance_measure(st: ParserView)
    ensures
        st.advance().measure() <= st.measure(),
        st.measure() > 0 ==> st.advance().measure() < st.measure(),
        st.measure() == 0 ==> st.cur.kind == TokenType::EOF,
        st.advance().errors == st.errors,
{
}

/// The diagnostic for a token that is not the expected one.
pub open spec fn peek_message(expected: TokenType, actual: TokenType) -> Seq<char> {
    "expected token="@ + expected.name_spec() + ", got "@ + actual.name_spec()
}

/// The diagnostic for a token that cannot start an expression.
pub open spec fn no_prefix_message(kind: TokenType) -> Seq<char> {
    "no prefix parse function for "@ + kind.name_spec()
}

/// The diagnostic for an integer literal that does not fit 32 bits.
pub open spec fn integer_message(literal: Seq<char>) -> Seq<char> {
    "could not parse "@ + literal + " as integer"@
}

/// Whether a token kind can start an expression.
pub open spec fn has_prefix_rule(kind: TokenType) -> bool {
    prefix_routine_of(kind) is Some
}

/// Whether a token kind is a binary operator.
pub open spec fn is_binary_operator(kind: TokenType) -> bool {
    infix_routine_of(kind) == Some(InfixRoutine::InfixExpression)
}

/// The result for a token that cannot start an expression: the sentinel,
/// and a diagnostic.
pub open spec fn no_prefix_result(st: ParserView) -> (ExprView, ParserView) {
    (ExprView::NoExpression, st.with_error(no_prefix_message(st.cur.kind)))
}

/// The identifier that a token names.
pub open spec fn identifier_of(token: TokenView) -> ExprView {
    ExprView::Identifier { token, value: token.literal }
}

/// An identifier expression from the current token.
pub open spec fn parse_identifier_spec(st: ParserView) -> ExprView {
    ExprView::Identifier {
        token: TokenView { kind: TokenType::IDENT, literal: st.cur.literal },
        value: st.cur.literal,
    }
}

/// An integer literal from the current token, whose text must be a
/// numeral that fits 32 bits.
pub open spec fn parse_integer_spec(st: ParserView) -> ExprView {
    ExprView::IntegerLiteral {
        token: TokenView { kind: TokenType::INT, literal: st.cur.literal },
        value: parse_i32_spec(st.cur.literal)->0,
    }
}

/// A boolean literal from the current token.
pub open spec fn parse_boolean_spec(st: ParserView) -> ExprView {
    ExprView::BooleanLiteral { token: st.cur, value: st.cur.kind == TokenType::TRUE }
}

/// Parses an expression whose operators bind tighter than `prec`.
pub open spec fn parse_expression_spec(st: ParserView, prec: Precedence) -> (ExprView, ParserView)
    decreases st.measure(), 5nat,
{
    if !has_prefix_rule(st.cur.kind) {
        no_prefix_result(st)
    } else {
        let (left, st1) = parse_prefix_spec(st);
        if st1.measure() <= st.measure() {
            parse_infix_loop_spec(left, st1, prec)
        } else {
            (left, st1)
        }
    }
}

/// Parses what the current token starts, by the routine that the table
/// of prefix routines holds for it: a literal, an identifier, a prefix
/// operation, a group, a conditional or a function.
pub open spec fn parse_prefix_spec(st: ParserView) -> (ExprView, ParserView)
    decreases st.measure(), 4nat,
{
    match prefix_routine_of(st.cur.kind) {
        Some(PrefixRoutine::Identifier) => (parse_identifier_spec(st), st),
        Some(PrefixRoutine::IntegerLiteral) => if parse_i32_spec(st.cur.literal) is Some {
            (parse_integer_spec(st), st)
        } else {
            (ExprView::NoExpression, st.with_error(integer_message(st.cur.literal)))
        },
        Some(PrefixRoutine::PrefixExpression) => parse_prefix_expression_spec(st),
        Some(PrefixRoutine::Boolean) => (parse_boolean_spec(st), st),
        Some(PrefixRoutine::GroupedExpression) => parse_grouped_spec(st),
        Some(PrefixRoutine::IfExpression) => parse_if_spec(st),
        Some(PrefixRoutine::FuncExpression) => parse_func_spec(st),
        None => no_prefix_result(st),
    }
}

/// Extends `left` by the infix operators and calls that follow, each
/// parsed by the routine that the table of infix routines holds for it,
/// as long as they bind tighter than `prec` and no semicolon intervenes.
pub open spec fn parse_infix_loop_spec(left: ExprView, st: ParserView, prec: Precedence) -> (
    ExprView,
    ParserView,
)
    decreases st.measure(), 4nat,
{
    if !st.peek_is(TokenType::SEMICOLON) && prec.rank_spec() < Precedence::of(
        st.peek.kind,
    ).rank_spec() {
        match infix_routine_of(st.peek.kind) {
            Some(routine) => {
                let (next, st1) = match routine {
                    InfixRoutine::CallExpression => parse_call_spec(left, st),
                    InfixRoutine::InfixExpression => parse_infix_expression_spec(left, st),
                };
                if st1.measure() < st.measure() {
                    parse_infix_loop_spec(next, st1, prec)
                } else {
                    (next, st1)
                }
            },
            None => (left, st),
        }
    } else {
        (left, st)
    }
}

/// Parses the operand of a prefix operator.
pub open spec fn parse_prefix_expression_spec(st: ParserView) -> (ExprView, ParserView)
    decreases st.measure(), 3nat,
{
    let st1 = st.advance();
    let (right, st2) = if !st1.cur_is(TokenType::EOF) {
        proof {
            lemma_advance_measure(st);
        }
        parse_expression_spec(st1, Precedence::PREFIX)
    } else {
        no_prefix_result(st1)
    };
    (ExprView::Prefix { token: st.cur, operator: st.cur.literal, right: Box::new(right) }, st2)
}

/// Parses the right operand of the infix operator that follows `left`.
/// The operand's operators must bind tighter than the operator itself,
/// which makes operators of one level associate to the left.
pub open spec fn parse_infix_expression_spec(left: ExprView, st: ParserView) -> (
    ExprView,
    ParserView,
)
    decreases st.measure(), 3nat,
{
    let st1 = st.advance();
    let st2 = st1.advance();
    let (right, st3) = if !st2.cur_is(TokenType::EOF) {
        proof {
            lemma_advance_measure(st);
            lemma_advance_measure(st1);
        }
        parse_expression_spec(st2, Precedence::of(st1.cur.kind))
    } else {
        no_prefix_result(st2)
    };
    (
        ExprView::Infix {
            token: st1.cur,
            left: Box::new(left),
            operator: st1.cur.literal,
            right: Box::new(right),
        },
        st3,
    )
}

/// Parses an expression in parentheses. Without the closing parenthesis
/// the result is the sentinel, and a diagnostic.
pub open spec fn parse_grouped_spec(st: ParserView) -> (ExprView, ParserView)
    decreases st.measure(), 3nat,
{
    let st1 = st.advance();
    let (inner, st2) = if !st1.cur_is(TokenType::EOF) {
        proof {
            lemma_advance_measure(st);
        }
        parse_expression_spec(st1, Precedence::LOWEST)
    } else {
        no_prefix_result(st1)
    };
    let (closed, st3) = st2.require_peek(TokenType::RPAREN);
    if closed {
        (inner, st3)
    } else {
        (ExprView::NoExpression, st3)
    }
}

/// The statement that stands for an `else if`: an expression statement
/// around the nested conditional.
pub open spec fn else_if_statement(nested: ExprView) -> StmtView {
    new_statement(TokenType::IF).with_expression(nested)
}

/// Parses what may follow the first block of a conditional: nothing,
/// `else` with a block, or `else` with another conditional. The outer
/// `None` stands for a missing brace, which leaves a diagnostic; the inner
/// one for a conditional without alternative.
pub open spec fn parse_else_spec(st: ParserView) -> (Option<Option<StmtView>>, ParserView)
    decreases st.measure(), 2nat,
{
    if !st.peek_is(TokenType::ELSE) {
        (Some(None), st)
    } else {
        proof {
            lemma_advance_measure(st);
            lemma_advance_measure(st.advance());
        }
        let st1 = st.advance();
        if st1.peek_is(TokenType::IF) {
            let (nested, st2) = parse_if_spec(st1.advance());
            (Some(Some(else_if_statement(nested))), st2)
        } else {
            let (opened, st2) = st1.require_peek(TokenType::LBRACE);
            if opened {
                let (alternative, st3) = parse_block_spec(st2);
                (Some(Some(alternative)), st3)
            } else {
                (None, st2)
            }
        }
    }
}

/// Parses a conditional: a condition, a block, and optionally `else` with
/// a block or with another conditional. Where a brace is missing the
/// result is the sentinel, and a diagnostic.
pub open spec fn parse_if_spec(st: ParserView) -> (ExprView, ParserView)
    decreases st.measure(), 3nat,
{
    let st1 = st.advance();
    let (condition, st2) = if !st1.cur_is(TokenType::EOF) {
        proof {
            lemma_advance_measure(st);
        }
        parse_expression_spec(st1, Precedence::LOWEST)
    } else {
        no_prefix_result(st1)
    };
    let (opened, st3) = st2.require_peek(TokenType::LBRACE);
    if !opened || st3.measure() >= st.measure() {
        (ExprView::NoExpression, st3)
    } else {
        let (consequence, st4) = parse_block_spec(st3);
        if st4.measure() > st.measure() {
            (ExprView::NoExpression, st4)
        } else {
            let (alternative, st5) = parse_else_spec(st4);
            match alternative {
                Some(alternative) => (
                    ExprView::IfExpression {
                        token: st.cur,
                        condition: Box::new(condition),
                        consequence: Box::new(consequence),
                        alternative: match alternative {
                            Some(stmt) => Some(Box::new(stmt)),
                            None => None,
                        },
                    },
                    st5,
                ),
                None => (ExprView::NoExpression, st5),
            }
        }
    }
}

/// Parses the parameter names that follow the first one, up to the
/// closing parenthesis.
pub open spec fn parse_more_parameters_spec(st: ParserView, names: Seq<ExprView>) -> (
    Option<Seq<ExprView>>,
    ParserView,
)
    decreases st.measure(),
{
    if st.peek_is(TokenType::COMMA) {
        proof {
            lemma_advance_measure(st);
        }
        let st1 = st.advance();
        let (named, st2) = st1.require_peek(TokenType::IDENT);
        if named {
            proof {
                lemma_advance_measure(st1);
            }
            parse_more_parameters_spec(st2, names.push(identifier_of(st2.cur)))
        } else {
            (None, st2)
        }
    } else {
        let (closed, st1) = st.require_peek(TokenType::RPAREN);
        if closed {
            (Some(names), st1)
        } else {
            (None, st1)
        }
    }
}

/// Parses a parameter list after its opening parenthesis: identifiers
/// separated by commas, then the closing parenthesis. `None`, and a
/// diagnostic, where the list is malformed.
pub open spec fn parse_func_parameters_spec(st: ParserView) -> (
    Option<Seq<ExprView>>,
    ParserView,
) {
    if st.peek_is(TokenType::RPAREN) {
        (Some(Seq::empty()), st.advance())
    } else {
        let (named, st1) = st.require_peek(TokenType::IDENT);
        if named {
            parse_more_parameters_spec(st1, seq![identifier_of(st1.cur)])
        } else {
            (None, st1)
        }
    }
}

/// Parses a function literal: a parameter list and a body block. Where
/// the list is malformed or a delimiter is missing the result is the
/// sentinel, and a diagnostic.
pub open spec fn parse_func_spec(st: ParserView) -> (ExprView, ParserView)
    decreases st.measure(), 3nat,
{
    let (opened, st1) = st.require_peek(TokenType::LPAREN);
    if !opened {
        (ExprView::NoExpression, st1)
    } else {
        let (parameters, st2) = parse_func_parameters_spec(st1);
        if parameters is None {
            (ExprView::NoExpression, st2)
        } else {
            let (braced, st3) = st2.require_peek(TokenType::LBRACE);
            if !braced || st3.measure() >= st.measure() {
                (ExprView::NoExpression, st3)
            } else {
                let (body, st4) = parse_block_spec(st3);
                (
                    ExprView::FuncExpression {
                        token: st.cur,
                        parameters: parameters->0,
                        body: Box::new(body),
                    },
                    st4,
                )
            }
        }
    }
}

/// Parses the call arguments that follow the first one, up to the closing
/// parenthesis.
pub open spec fn parse_more_arguments_spec(st: ParserView, args: Seq<ExprView>) -> (
    Option<Seq<ExprView>>,
    ParserView,
)
    decreases st.measure(), 1nat,
{
    if st.peek_is(TokenType::COMMA) {
        let st1 = st.advance();
        let st2 = st1.advance();
        let (arg, st3) = if !st2.cur_is(TokenType::EOF) {
            proof {
                lemma_advance_measure(st);
                lemma_advance_measure(st1);
            }
            parse_expression_spec(st2, Precedence::LOWEST)
        } else {
            no_prefix_result(st2)
        };
        if st3.measure() < st.measure() {
            parse_more_arguments_spec(st3, args.push(arg))
        } else {
            (None, st3)
        }
    } else {
        let (closed, st1) = st.require_peek(TokenType::RPAREN);
        if closed {
            (Some(args), st1)
        } else {
            (None, st1)
        }
    }
}

/// Parses call arguments after the opening parenthesis, which is the
/// current token: expressions separated by commas, then the closing
/// parenthesis. `None`, and a diagnostic, without the closing parenthesis.
pub open spec fn parse_call_arguments_spec(st: ParserView) -> (Option<Seq<ExprView>>, ParserView)
    decreases st.measure(), 2nat,
{
    if st.peek_is(TokenType::RPAREN) {
        (Some(Seq::empty()), st.advance())
    } else {
        let st1 = st.advance();
        let (first, st2) = if !st1.cur_is(TokenType::EOF) {
            proof {
                lemma_advance_measure(st);
            }
            parse_expression_spec(st1, Precedence::LOWEST)
        } else {
            no_prefix_result(st1)
        };
        if st2.measure() <= st.measure() {
            parse_more_arguments_spec(st2, seq![first])
        } else {
            (None, st2)
        }
    }
}

/// Parses a call of `func`, whose opening parenthesis is the next token.
/// Without the closing parenthesis the result is the sentinel, and a
/// diagnostic.
pub open spec fn parse_call_spec(func: ExprView, st: ParserView) -> (ExprView, ParserView)
    decreases st.measure(), 3nat,
{
    proof {
        lemma_advance_measure(st);
    }
    let st1 = st.advance();
    let (args, st2) = parse_call_arguments_spec(st1);
    match args {
        Some(args) => (
            ExprView::CallExpression { token: st1.cur, func: Box::new(func), args },
            st2,
        ),
        None => (ExprView::NoExpression, st2),
    }
}

/// Parses statements one after another: inside a block up to the closing
/// brace or the end marker, at the top level up to the end marker.
/// Statements that fail to parse are left out.
pub open spec fn parse_statements_spec(st: ParserView, done: Seq<StmtView>, in_block: bool) -> (
    Seq<StmtView>,
    ParserView,
)
    decreases st.measure(), 9nat,
{
    if st.cur_is(TokenType::EOF) || (in_block && st.cur_is(TokenType::RBRACE)) {
        (done, st)
    } else {
        let (parsed, st1) = parse_statement_spec(st);
        let st2 = st1.advance();
        let next = match parsed {
            Some(stmt) => done.push(stmt),
            None => done,
        };
        if st2.measure() < st.measure() {
            parse_statements_spec(st2, next, in_block)
        } else {
            (next, st2)
        }
    }
}

/// Parses a block: the statements after the opening brace, which is the
/// current token.
pub open spec fn parse_block_spec(st: ParserView) -> (StmtView, ParserView)
    decreases st.measure(), 10nat,
{
    proof {
        lemma_advance_measure(st);
    }
    let (statements, st1) = parse_statements_spec(st.advance(), Seq::empty(), true);
    (StmtView::BlockStatement { token: st.cur, statements }, st1)
}

/// Parses one statement: by its first token a `let`, a `return`, or an
/// expression statement.
pub open spec fn parse_statement_spec(st: ParserView) -> (Option<StmtView>, ParserView)
    decreases st.measure(), 8nat,
{
    match st.cur.kind {
        TokenType::LET => parse_let_spec(st),
        TokenType::RETURN => parse_return_spec(st),
        _ => parse_expression_statement_spec(st),
    }
}

/// Parses `let <identifier> = <expression>`, then moves on to the
/// semicolon or the end marker. Without the identifier or the equals sign
/// there is no statement, and a diagnostic.
pub open spec fn parse_let_spec(st: ParserView) -> (Option<StmtView>, ParserView)
    decreases st.measure(), 7nat,
{
    let (named, st1) = st.require_peek(TokenType::IDENT);
    if !named {
        (None, st1)
    } else {
        let (assigned, st2) = st1.require_peek(TokenType::ASSIGN);
        if !assigned {
            (None, st2)
        } else {
            proof {
                lemma_advance_measure(st);
                lemma_advance_measure(st1);
                lemma_advance_measure(st2);
            }
            let (value, st3) = parse_expression_spec(st2.advance(), Precedence::LOWEST);
            (
                Some(
                    new_statement(TokenType::LET).with_let_name(identifier_of(st1.cur)).with_value(
                        value,
                    ),
                ),
                st3.skip_to_semicolon(),
            )
        }
    }
}

/// Parses `return <expression>`, then moves on to the semicolon or the
/// end marker.
pub open spec fn parse_return_spec(st: ParserView) -> (Option<StmtView>, ParserView)
    decreases st.measure(), 7nat,
{
    proof {
        lemma_advance_measure(st);
    }
    let (value, st1) = parse_expression_spec(st.advance(), Precedence::LOWEST);
    (Some(new_statement(TokenType::RETURN).with_value(value)), st1.skip_to_semicolon())
}

/// Parses an expression as a statement, and moves past a semicolon that
/// follows it.
pub open spec fn parse_expression_statement_spec(st: ParserView) -> (
    Option<StmtView>,
    ParserView,
)
    decreases st.measure(), 7nat,
{
    let (expression, st1) = parse_expression_spec(st, Precedence::LOWEST);
    (
        Some(new_statement(st.cur.kind).with_expression(expression).with_expression_literal()),
        if st1.peek_is(TokenType::SEMICOLON) {
            st1.advance()
        } else {
            st1
        },
    )
}

/// Parses a whole program: statements up to the end marker.
pub open spec fn parse_program_spec(st: ParserView) -> (Seq<StmtView>, ParserView) {
    parse_statements_spec(st, Seq::empty(), false)
}

} // verus!
