//! What holds of every parse: it never goes back in the input, and it
//! only ever adds diagnostics.

use crate::ast::{ExprView, StmtView};
use crate::parser::model::{
    has_prefix_rule, identifier_of, is_binary_operator, lemma_advance_measure, no_prefix_result,
    parse_block_spec, parse_call_arguments_spec, parse_call_spec, parse_else_spec,
    parse_expression_spec, parse_func_parameters_spec, parse_func_spec, parse_grouped_spec,
    parse_if_spec, parse_infix_expression_spec, parse_infix_loop_spec,
    parse_more_arguments_spec, parse_more_parameters_spec, parse_prefix_expression_spec,
    parse_prefix_spec, parse_program_spec, parse_statement_spec, parse_statements_spec,
    ParserView,
};
use crate::parser::precedence::Precedence;
use crate::parser::routines::{infix_routine_of, prefix_routine_of, InfixRoutine, PrefixRoutine};
use crate::token::{TokenType, TokenView};
use vstd::prelude::*;

verus! {

/// A later state of a parse: no more input is left than in the earlier
/// state, and the earlier diagnostics are still there, in their order, at
/// the front of the later ones.
pub open spec fn follows(later: ParserView, earlier: ParserView) -> bool {
    &&& later.measure() <= earlier.measure()
    &&& earlier.errors.len() <= later.errors.len()
    &&& forall|i: int| 0 <= i < earlier.errors.len() ==> later.errors[i] == earlier.errors[i]
}

/// At the end marker no expression starts: parsing one gives the sentinel
/// and a diagnostic, and reads nothing.
pub proof fn lemma_no_expression_at_end(st: ParserView, prec: Precedence)
    requires
        st.cur.kind == TokenType::EOF,
    ensures
        parse_expression_spec(st, prec) == no_prefix_result(st),
{
}

/// Moving on to the semicolon leads to a later state.
pub proof fn lemma_skip_follows(st: ParserView)
    ensures
        follows(st.skip_to_semicolon(), st),
    decreases st.measure(),
{
    if !(st.cur_is(TokenType::SEMICOLON) || st.cur_is(TokenType::EOF)) {
        lemma_advance_measure(st);
        lemma_skip_follows(st.advance());
    }
}

/// Parsing the rest of a parameter list leads to a later state.
pub proof fn lemma_more_parameters_follow(st: ParserView, names: Seq<ExprView>)
    ensures
        follows(parse_more_parameters_spec(st, names).1, st),
    decreases st.measure(),
{
    lemma_advance_measure(st);
    if st.peek_is(TokenType::COMMA) {
        let st1 = st.advance();
        lemma_advance_measure(st1);
        let (named, st2) = st1.require_peek(TokenType::IDENT);
        if named {
            lemma_more_parameters_follow(st2, names.push(identifier_of(st2.cur)));
        }
    }
}

/// Parsing a parameter list leads to a later state.
pub proof fn lemma_parameters_follow(st: ParserView)
    ensures
        follows(parse_func_parameters_spec(st).1, st),
{
    lemma_advance_measure(st);
    if !st.peek_is(TokenType::RPAREN) {
        let (named, st1) = st.require_peek(TokenType::IDENT);
        if named {
            lemma_more_parameters_follow(st1, seq![identifier_of(st1.cur)]);
        }
    }
}

/// Parsing an expression leads to a later state.
pub proof fn lemma_expression_follows(st: ParserView, prec: Precedence)
    ensures
        follows(parse_expression_spec(st, prec).1, st),
    decreases st.measure(), 5nat,
{
    if has_prefix_rule(st.cur.kind) {
        lemma_prefix_follows(st);
        let (left, st1) = parse_prefix_spec(st);
        lemma_infix_loop_follows(left, st1, prec);
    }
}

/// Parsing what a token starts leads to a later state.
pub proof fn lemma_prefix_follows(st: ParserView)
    ensures
        follows(parse_prefix_spec(st).1, st),
    decreases st.measure(), 4nat,
{
    match prefix_routine_of(st.cur.kind) {
        Some(PrefixRoutine::PrefixExpression) => lemma_prefix_expression_follows(st),
        Some(PrefixRoutine::GroupedExpression) => lemma_grouped_follows(st),
        Some(PrefixRoutine::IfExpression) => lemma_if_follows(st),
        Some(PrefixRoutine::FuncExpression) => lemma_func_follows(st),
        _ => {},
    }
}

/// Parsing the operators and calls that follow an expression leads to a
/// later state.
pub proof fn lemma_infix_loop_follows(left: ExprView, st: ParserView, prec: Precedence)
    ensures
        follows(parse_infix_loop_spec(left, st, prec).1, st),
    decreases st.measure(), 4nat,
{
    if !st.peek_is(TokenType::SEMICOLON) && prec.rank_spec() < Precedence::of(
        st.peek.kind,
    ).rank_spec() {
        match infix_routine_of(st.peek.kind) {
            Some(routine) => {
                let (next, st1) = match routine {
                    InfixRoutine::CallExpression => {
                        lemma_call_follows(left, st);
                        parse_call_spec(left, st)
                    },
                    InfixRoutine::InfixExpression => {
                        lemma_infix_follows(left, st);
                        parse_infix_expression_spec(left, st)
                    },
                };
                if st1.measure() < st.measure() {
                    lemma_infix_loop_follows(next, st1, prec);
                }
            },
            None => {},
        }
    }
}

/// Parsing a prefix operation leads to a later state.
pub proof fn lemma_prefix_expression_follows(st: ParserView)
    ensures
        follows(parse_prefix_expression_spec(st).1, st),
    decreases st.measure(), 3nat,
{
    lemma_advance_measure(st);
    let st1 = st.advance();
    if !st1.cur_is(TokenType::EOF) {
        lemma_expression_follows(st1, Precedence::PREFIX);
    }
}

/// Parsing an infix operation leads to a later state, and to one with less
/// input left if an operator follows.
pub proof fn lemma_infix_follows(left: ExprView, st: ParserView)
    ensures
        follows(parse_infix_expression_spec(left, st).1, st),
        st.peek.kind != TokenType::EOF ==> parse_infix_expression_spec(left, st).1.measure()
            < st.measure(),
    decreases st.measure(), 3nat,
{
    lemma_advance_measure(st);
    let st1 = st.advance();
    lemma_advance_measure(st1);
    let st2 = st1.advance();
    if !st2.cur_is(TokenType::EOF) {
        lemma_expression_follows(st2, Precedence::of(st1.cur.kind));
    }
}

/// Parsing a group leads to a later state.
pub proof fn lemma_grouped_follows(st: ParserView)
    ensures
        follows(parse_grouped_spec(st).1, st),
    decreases st.measure(), 3nat,
{
    lemma_advance_measure(st);
    let st1 = st.advance();
    if !st1.cur_is(TokenType::EOF) {
        lemma_expression_follows(st1, Precedence::LOWEST);
    }
    let st2 = if !st1.cur_is(TokenType::EOF) {
        parse_expression_spec(st1, Precedence::LOWEST).1
    } else {
        no_prefix_result(st1).1
    };
    lemma_advance_measure(st2);
}

/// Parsing a conditional leads to a later state.
pub proof fn lemma_if_follows(st: ParserView)
    ensures
        follows(parse_if_spec(st).1, st),
    decreases st.measure(), 3nat,
{
    lemma_advance_measure(st);
    let st1 = st.advance();
    if !st1.cur_is(TokenType::EOF) {
        lemma_expression_follows(st1, Precedence::LOWEST);
    }
    let st2 = if !st1.cur_is(TokenType::EOF) {
        parse_expression_spec(st1, Precedence::LOWEST).1
    } else {
        no_prefix_result(st1).1
    };
    lemma_advance_measure(st2);
    let (opened, st3) = st2.require_peek(TokenType::LBRACE);
    if opened && st3.measure() < st.measure() {
        lemma_block_follows(st3);
        let st4 = parse_block_spec(st3).1;
        lemma_else_follows(st4);
    }
}

/// Parsing the alternative of a conditional leads to a later state.
pub proof fn lemma_else_follows(st: ParserView)
    ensures
        follows(parse_else_spec(st).1, st),
    decreases st.measure(), 2nat,
{
    if st.peek_is(TokenType::ELSE) {
        lemma_advance_measure(st);
        let st1 = st.advance();
        lemma_advance_measure(st1);
        if st1.peek_is(TokenType::IF) {
            lemma_if_follows(st1.advance());
        } else {
            let (opened, st2) = st1.require_peek(TokenType::LBRACE);
            if opened {
                lemma_block_follows(st2);
            }
        }
    }
}

/// Parsing a function literal leads to a later state.
pub proof fn lemma_func_follows(st: ParserView)
    ensures
        follows(parse_func_spec(st).1, st),
    decreases st.measure(), 3nat,
{
    lemma_advance_measure(st);
    let (opened, st1) = st.require_peek(TokenType::LPAREN);
    if opened {
        lemma_parameters_follow(st1);
        let (parameters, st2) = parse_func_parameters_spec(st1);
        if parameters is Some {
            lemma_advance_measure(st2);
            let (braced, st3) = st2.require_peek(TokenType::LBRACE);
            if braced && st3.measure() < st.measure() {
                lemma_block_follows(st3);
            }
        }
    }
}

/// Parsing the rest of an argument list leads to a later state.
pub proof fn lemma_more_arguments_follow(st: ParserView, args: Seq<ExprView>)
    ensures
        follows(parse_more_arguments_spec(st, args).1, st),
    decreases st.measure(), 1nat,
{
    lemma_advance_measure(st);
    if st.peek_is(TokenType::COMMA) {
        let st1 = st.advance();
        lemma_advance_measure(st1);
        let st2 = st1.advance();
        if !st2.cur_is(TokenType::EOF) {
            lemma_expression_follows(st2, Precedence::LOWEST);
        }
        let (arg, st3) = if !st2.cur_is(TokenType::EOF) {
            parse_expression_spec(st2, Precedence::LOWEST)
        } else {
            no_prefix_result(st2)
        };
        if st3.measure() < st.measure() {
            lemma_more_arguments_follow(st3, args.push(arg));
        }
    }
}

/// Parsing an argument list leads to a later state.
pub proof fn lemma_arguments_follow(st: ParserView)
    ensures
        follows(parse_call_arguments_spec(st).1, st),
    decreases st.measure(), 2nat,
{
    lemma_advance_measure(st);
    if !st.peek_is(TokenType::RPAREN) {
        let st1 = st.advance();
        if !st1.cur_is(TokenType::EOF) {
            lemma_expression_follows(st1, Precedence::LOWEST);
        }
        let (first, st2) = if !st1.cur_is(TokenType::EOF) {
            parse_expression_spec(st1, Precedence::LOWEST)
        } else {
            no_prefix_result(st1)
        };
        if st2.measure() <= st.measure() {
            lemma_more_arguments_follow(st2, seq![first]);
        }
    }
}

/// Parsing a call leads to a later state, and to one with less input left
/// if a token follows.
pub proof fn lemma_call_follows(func: ExprView, st: ParserView)
    ensures
        follows(parse_call_spec(func, st).1, st),
        st.peek.kind != TokenType::EOF ==> parse_call_spec(func, st).1.measure() < st.measure(),
    decreases st.measure(), 3nat,
{
    lemma_advance_measure(st);
    lemma_arguments_follow(st.advance());
}

/// Parsing statements leads to a later state.
pub proof fn lemma_statements_follow(st: ParserView, done: Seq<StmtView>, in_block: bool)
    ensures
        follows(parse_statements_spec(st, done, in_block).1, st),
    decreases st.measure(), 9nat,
{
    if !(st.cur_is(TokenType::EOF) || (in_block && st.cur_is(TokenType::RBRACE))) {
        lemma_statement_follows(st);
        let (parsed, st1) = parse_statement_spec(st);
        lemma_advance_measure(st1);
        let st2 = st1.advance();
        let next = match parsed {
            Some(stmt) => done.push(stmt),
            None => done,
        };
        if st2.measure() < st.measure() {
            lemma_statements_follow(st2, next, in_block);
        }
    }
}

/// Parsing a block leads to a later state.
pub proof fn lemma_block_follows(st: ParserView)
    ensures
        follows(parse_block_spec(st).1, st),
    decreases st.measure(), 10nat,
{
    lemma_advance_measure(st);
    lemma_statements_follow(st.advance(), Seq::empty(), true);
}

/// Parsing a statement leads to a later state.
pub proof fn lemma_statement_follows(st: ParserView)
    ensures
        follows(parse_statement_spec(st).1, st),
    decreases st.measure(), 8nat,
{
    match st.cur.kind {
        TokenType::LET => {
            lemma_advance_measure(st);
            let (named, st1) = st.require_peek(TokenType::IDENT);
            if named {
                lemma_advance_measure(st1);
                let (assigned, st2) = st1.require_peek(TokenType::ASSIGN);
                if assigned {
                    lemma_advance_measure(st2);
                    lemma_expression_follows(st2.advance(), Precedence::LOWEST);
                    lemma_skip_follows(
                        parse_expression_spec(st2.advance(), Precedence::LOWEST).1,
                    );
                }
            }
        },
        TokenType::RETURN => {
            lemma_advance_measure(st);
            lemma_expression_follows(st.advance(), Precedence::LOWEST);
            lemma_skip_follows(parse_expression_spec(st.advance(), Precedence::LOWEST).1);
        },
        _ => {
            lemma_expression_follows(st, Precedence::LOWEST);
            lemma_advance_measure(parse_expression_spec(st, Precedence::LOWEST).1);
        },
    }
}

/// Parsing a program never goes back in the input and only adds
/// diagnostics; it ends on the end marker.
pub proof fn lemma_program_follows(st: ParserView)
    ensures
        follows(parse_program_spec(st).1, st),
        parse_program_spec(st).1.cur.kind == TokenType::EOF,
{
    lemma_statements_follow(st, Seq::empty(), false);
    lemma_program_ends(st, Seq::empty());
}

proof fn lemma_program_ends(st: ParserView, done: Seq<StmtView>)
    ensures
        parse_statements_spec(st, done, false).1.cur.kind == TokenType::EOF,
    decreases st.measure(),
{
    if !st.cur_is(TokenType::EOF) {
        lemma_statement_follows(st);
        let (parsed, st1) = parse_statement_spec(st);
        lemma_advance_measure(st1);
        let st2 = st1.advance();
        let next = match parsed {
            Some(stmt) => done.push(stmt),
            None => done,
        };
        assert(st.measure() > 0);
        lemma_program_ends(st2, next);
    }
}

/// The infix expression `left operator right`.
pub open spec fn infix_of(left: ExprView, operator: TokenView, right: ExprView) -> ExprView {
    ExprView::Infix {
        token: operator,
        left: Box::new(left),
        operator: operator.literal,
        right: Box::new(right),
    }
}

/// Whether an expression ends before a token of the given kind: at a
/// semicolon, and at every token that binds at the lowest level.
pub open spec fn ends_expression(kind: TokenType) -> bool {
    kind == TokenType::SEMICOLON || Precedence::of(kind) == Precedence::LOWEST
}

/// Two binary operators between three names nest by precedence: the
/// operator that binds tighter takes its operands first, and of two
/// operators of one level the left one does. So `a + b * c` is
/// `a + (b * c)`, while `a * b + c` is `(a * b) + c` and `a - b - c` is
/// `(a - b) - c`. No diagnostic is recorded, and the parse stops on the
/// third name.
pub proof fn lemma_operators_nest_by_precedence(
    a: TokenView,
    first: TokenView,
    b: TokenView,
    second: TokenView,
    c: TokenView,
    end: TokenView,
    rest: Seq<TokenView>,
    errors: Seq<Seq<char>>,
)
    requires
        a.kind == TokenType::IDENT,
        b.kind == TokenType::IDENT,
        c.kind == TokenType::IDENT,
        is_binary_operator(first.kind),
        is_binary_operator(second.kind),
        ends_expression(end.kind),
    ensures
        parse_expression_spec(
            ParserView { cur: a, peek: first, rest: seq![b, second, c, end] + rest, errors },
            Precedence::LOWEST,
        ) == (
            if Precedence::of(first.kind).rank_spec() < Precedence::of(second.kind).rank_spec() {
                infix_of(named(a), first, infix_of(named(b), second, named(c)))
            } else {
                infix_of(infix_of(named(a), first, named(b)), second, named(c))
            },
            ParserView { cur: c, peek: end, rest, errors },
        ),
{
    let first_level = Precedence::of(first.kind);
    let second_level = Precedence::of(second.kind);
    let st0 = ParserView { cur: a, peek: first, rest: seq![b, second, c, end] + rest, errors };
    let st1 = ParserView { cur: first, peek: b, rest: seq![second, c, end] + rest, errors };
    let st2 = ParserView { cur: b, peek: second, rest: seq![c, end] + rest, errors };
    let st3 = ParserView { cur: second, peek: c, rest: seq![end] + rest, errors };
    let st4 = ParserView { cur: c, peek: end, rest, errors };
    assert(st0.advance() == st1) by {
        assert(st0.rest.drop_first() =~= st1.rest);
    }
    assert(st1.advance() == st2) by {
        assert(st1.rest.drop_first() =~= st2.rest);
    }
    assert(st2.advance() == st3) by {
        assert(st2.rest.drop_first() =~= st3.rest);
    }
    assert(st3.advance() == st4) by {
        assert(st3.rest.drop_first() =~= st4.rest);
    }
    lemma_advance_measure(st0);
    lemma_advance_measure(st1);
    lemma_advance_measure(st2);
    lemma_advance_measure(st3);
    // The third name is an expression at every level, since `end` follows.
    assert forall|prec: Precedence| prec.rank_spec() >= 1 implies #[trigger] parse_infix_loop_spec(
        named(c),
        st4,
        prec,
    ) == (named(c), st4) by {}
    assert(parse_prefix_spec(st4) == (named(c), st4));
    assert(parse_expression_spec(st4, second_level) == (named(c), st4));
    assert(parse_prefix_spec(st2) == (named(b), st2));
    assert(parse_prefix_spec(st0) == (named(a), st0));
    if first_level.rank_spec() < second_level.rank_spec() {
        let bc = infix_of(named(b), second, named(c));
        assert(parse_infix_expression_spec(named(b), st2) == (bc, st4));
        assert(parse_infix_loop_spec(bc, st4, first_level) == (bc, st4));
        assert(parse_infix_loop_spec(named(b), st2, first_level) == (bc, st4));
        assert(parse_expression_spec(st2, first_level) == (bc, st4));
        let abc = infix_of(named(a), first, bc);
        assert(parse_infix_expression_spec(named(a), st0) == (abc, st4));
        assert(parse_infix_loop_spec(abc, st4, Precedence::LOWEST) == (abc, st4));
        assert(parse_infix_loop_spec(named(a), st0, Precedence::LOWEST) == (abc, st4));
    } else {
        let ab = infix_of(named(a), first, named(b));
        assert(parse_infix_loop_spec(named(b), st2, first_level) == (named(b), st2));
        assert(parse_expression_spec(st2, first_level) == (named(b), st2));
        assert(parse_infix_expression_spec(named(a), st0) == (ab, st2));
        let abc = infix_of(ab, second, named(c));
        assert(parse_infix_expression_spec(ab, st2) == (abc, st4));
        assert(parse_infix_loop_spec(abc, st4, Precedence::LOWEST) == (abc, st4));
        assert(parse_infix_loop_spec(ab, st2, Precedence::LOWEST) == (abc, st4));
        assert(parse_infix_loop_spec(named(a), st0, Precedence::LOWEST) == (abc, st4));
    }
}

/// The identifier expression that the parser makes of a name token.
pub open spec fn named(token: TokenView) -> ExprView {
    ExprView::Identifier {
        token: TokenView { kind: TokenType::IDENT, literal: token.literal },
        value: token.literal,
    }
}

} // verus!
