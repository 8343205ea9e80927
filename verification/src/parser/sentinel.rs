//! Where the sentinel can stand: only in what was parsed with a
//! diagnostic. A parse that records no diagnostic yields whole trees.

use crate::ast::{
    expr_complete, exprs_complete, stmt_complete, stmts_complete, ExprView, StmtView,
};
use crate::parser::laws::{
    lemma_arguments_follow, lemma_block_follows, lemma_call_follows, lemma_else_follows,
    lemma_expression_follows, lemma_infix_follows, lemma_infix_loop_follows,
    lemma_more_arguments_follow, lemma_more_parameters_follow, lemma_parameters_follow,
    lemma_prefix_follows, lemma_skip_follows, lemma_statement_follows,
    lemma_statements_follow,
};
use crate::parser::model::{
    has_prefix_rule, identifier_of, lemma_advance_measure, no_prefix_result, parse_block_spec,
    parse_call_arguments_spec, parse_call_spec, parse_else_spec, parse_expression_spec,
    parse_func_parameters_spec, parse_func_spec, parse_grouped_spec, parse_if_spec,
    parse_infix_expression_spec, parse_infix_loop_spec, parse_more_arguments_spec,
    parse_more_parameters_spec, parse_prefix_expression_spec, parse_prefix_spec,
    parse_program_spec, parse_statement_spec, parse_statements_spec, ParserView,
};
use crate::parser::precedence::Precedence;
use crate::parser::routines::{infix_routine_of, prefix_routine_of, InfixRoutine, PrefixRoutine};
use crate::token::TokenType;
use vstd::prelude::*;

verus! {

/// Whether a step of parsing recorded no diagnostic.
pub open spec fn clean(before: ParserView, after: ParserView) -> bool {
    after.errors.len() == before.errors.len()
}

/// One more whole expression leaves a sequence of whole expressions whole.
proof fn lemma_push_complete(v: Seq<ExprView>, e: ExprView)
    requires
        exprs_complete(v),
        expr_complete(e),
    ensures
        exprs_complete(v.push(e)),
{
    assert forall|i: int| 0 <= i < v.push(e).len() implies expr_complete(
        #[trigger] v.push(e)[i],
    ) by {
        if i < v.len() {
            assert(v.push(e)[i] == v[i]);
        }
    }
}

/// The rest of a parameter list, parsed without diagnostic, is a list of
/// whole expressions.
proof fn lemma_more_parameters_clean(st: ParserView, names: Seq<ExprView>)
    requires
        exprs_complete(names),
    ensures
        clean(st, parse_more_parameters_spec(st, names).1) ==> {
            &&& parse_more_parameters_spec(st, names).0 is Some
            &&& exprs_complete(parse_more_parameters_spec(st, names).0->0)
        },
    decreases st.measure(),
{
    lemma_advance_measure(st);
    if st.peek_is(TokenType::COMMA) {
        let st1 = st.advance();
        lemma_advance_measure(st1);
        let (named, st2) = st1.require_peek(TokenType::IDENT);
        if named {
            let next = names.push(identifier_of(st2.cur));
            lemma_push_complete(names, identifier_of(st2.cur));
            lemma_more_parameters_follow(st2, next);
            lemma_more_parameters_clean(st2, next);
        }
    }
}

/// A parameter list parsed without diagnostic is a list of whole
/// expressions.
proof fn lemma_parameters_clean(st: ParserView)
    ensures
        clean(st, parse_func_parameters_spec(st).1) ==> {
            &&& parse_func_parameters_spec(st).0 is Some
            &&& exprs_complete(parse_func_parameters_spec(st).0->0)
        },
{
    lemma_advance_measure(st);
    if !st.peek_is(TokenType::RPAREN) {
        let (named, st1) = st.require_peek(TokenType::IDENT);
        if named {
            let first = seq![identifier_of(st1.cur)];
            assert(exprs_complete(first));
            lemma_more_parameters_follow(st1, first);
            lemma_more_parameters_clean(st1, first);
        }
    }
}

/// An expression parsed without diagnostic is whole.
pub proof fn lemma_clean_expression_is_complete(st: ParserView, prec: Precedence)
    ensures
        clean(st, parse_expression_spec(st, prec).1) ==> expr_complete(
            parse_expression_spec(st, prec).0,
        ),
    decreases st.measure(), 5nat,
{
    if has_prefix_rule(st.cur.kind) {
        lemma_prefix_follows(st);
        lemma_prefix_clean(st);
        let (left, st1) = parse_prefix_spec(st);
        lemma_infix_loop_follows(left, st1, prec);
        if clean(st, st1) {
            lemma_infix_loop_clean(left, st1, prec);
        }
    }
}

proof fn lemma_prefix_clean(st: ParserView)
    ensures
        clean(st, parse_prefix_spec(st).1) ==> expr_complete(parse_prefix_spec(st).0),
    decreases st.measure(), 4nat,
{
    match prefix_routine_of(st.cur.kind) {
        Some(PrefixRoutine::PrefixExpression) => lemma_prefix_expression_clean(st),
        Some(PrefixRoutine::GroupedExpression) => lemma_grouped_clean(st),
        Some(PrefixRoutine::IfExpression) => lemma_if_clean(st),
        Some(PrefixRoutine::FuncExpression) => lemma_func_clean(st),
        _ => {},
    }
}

proof fn lemma_infix_loop_clean(left: ExprView, st: ParserView, prec: Precedence)
    requires
        expr_complete(left),
    ensures
        clean(st, parse_infix_loop_spec(left, st, prec).1) ==> expr_complete(
            parse_infix_loop_spec(left, st, prec).0,
        ),
    decreases st.measure(), 4nat,
{
    if !st.peek_is(TokenType::SEMICOLON) && prec.rank_spec() < Precedence::of(
        st.peek.kind,
    ).rank_spec() {
        match infix_routine_of(st.peek.kind) {
            Some(routine) => {
                let (next, st1) = match routine {
                    InfixRoutine::CallExpression => {
                        lemma_call_follows(left, st);
                        lemma_call_clean(left, st);
                        parse_call_spec(left, st)
                    },
                    InfixRoutine::InfixExpression => {
                        lemma_infix_follows(left, st);
                        lemma_infix_clean(left, st);
                        parse_infix_expression_spec(left, st)
                    },
                };
                lemma_infix_loop_follows(next, st1, prec);
                if clean(st, st1) {
                    lemma_infix_loop_clean(next, st1, prec);
                }
            },
            None => {},
        }
    }
}

proof fn lemma_prefix_expression_clean(st: ParserView)
    ensures
        clean(st, parse_prefix_expression_spec(st).1) ==> expr_complete(
            parse_prefix_expression_spec(st).0,
        ),
    decreases st.measure(), 3nat,
{
    lemma_advance_measure(st);
    let st1 = st.advance();
    if !st1.cur_is(TokenType::EOF) {
        lemma_clean_expression_is_complete(st1, Precedence::PREFIX);
    }
}

proof fn lemma_infix_clean(left: ExprView, st: ParserView)
    requires
        expr_complete(left),
    ensures
        clean(st, parse_infix_expression_spec(left, st).1) ==> expr_complete(
            parse_infix_expression_spec(left, st).0,
        ),
    decreases st.measure(), 3nat,
{
    lemma_advance_measure(st);
    let st1 = st.advance();
    lemma_advance_measure(st1);
    let st2 = st1.advance();
    if !st2.cur_is(TokenType::EOF) {
        lemma_clean_expression_is_complete(st2, Precedence::of(st1.cur.kind));
    }
}

proof fn lemma_grouped_clean(st: ParserView)
    ensures
        clean(st, parse_grouped_spec(st).1) ==> expr_complete(parse_grouped_spec(st).0),
    decreases st.measure(), 3nat,
{
    lemma_advance_measure(st);
    let st1 = st.advance();
    if !st1.cur_is(TokenType::EOF) {
        lemma_expression_follows(st1, Precedence::LOWEST);
        lemma_clean_expression_is_complete(st1, Precedence::LOWEST);
    }
    let st2 = if !st1.cur_is(TokenType::EOF) {
        parse_expression_spec(st1, Precedence::LOWEST).1
    } else {
        no_prefix_result(st1).1
    };
    lemma_advance_measure(st2);
}

proof fn lemma_if_clean(st: ParserView)
    ensures
        clean(st, parse_if_spec(st).1) ==> expr_complete(parse_if_spec(st).0),
    decreases st.measure(), 3nat,
{
    lemma_advance_measure(st);
    let st1 = st.advance();
    if !st1.cur_is(TokenType::EOF) {
        lemma_expression_follows(st1, Precedence::LOWEST);
        lemma_clean_expression_is_complete(st1, Precedence::LOWEST);
    }
    let st2 = if !st1.cur_is(TokenType::EOF) {
        parse_expression_spec(st1, Precedence::LOWEST).1
    } else {
        no_prefix_result(st1).1
    };
    lemma_advance_measure(st2);
    let (opened, st3) = st2.require_peek(TokenType::LBRACE);
    if opened {
        lemma_block_follows(st3);
        lemma_block_clean(st3);
        let st4 = parse_block_spec(st3).1;
        lemma_else_follows(st4);
        lemma_else_clean(st4);
    }
}

proof fn lemma_else_clean(st: ParserView)
    ensures
        clean(st, parse_else_spec(st).1) ==> {
            &&& parse_else_spec(st).0 is Some
            &&& parse_else_spec(st).0->0 matches Some(alternative) ==> stmt_complete(alternative)
        },
    decreases st.measure(), 2nat,
{
    if st.peek_is(TokenType::ELSE) {
        lemma_advance_measure(st);
        let st1 = st.advance();
        lemma_advance_measure(st1);
        if st1.peek_is(TokenType::IF) {
            lemma_if_clean(st1.advance());
        } else {
            let (opened, st2) = st1.require_peek(TokenType::LBRACE);
            if opened {
                lemma_block_follows(st2);
                lemma_block_clean(st2);
            }
        }
    }
}

proof fn lemma_func_clean(st: ParserView)
    ensures
        clean(st, parse_func_spec(st).1) ==> expr_complete(parse_func_spec(st).0),
    decreases st.measure(), 3nat,
{
    lemma_advance_measure(st);
    let (opened, st1) = st.require_peek(TokenType::LPAREN);
    if opened {
        lemma_parameters_follow(st1);
        lemma_parameters_clean(st1);
        let (parameters, st2) = parse_func_parameters_spec(st1);
        lemma_advance_measure(st2);
        if parameters is Some {
            let (braced, st3) = st2.require_peek(TokenType::LBRACE);
            if braced {
                lemma_block_follows(st3);
                lemma_block_clean(st3);
            }
        }
    }
}

proof fn lemma_more_arguments_clean(st: ParserView, args: Seq<ExprView>)
    requires
        exprs_complete(args),
    ensures
        clean(st, parse_more_arguments_spec(st, args).1) ==> {
            &&& parse_more_arguments_spec(st, args).0 is Some
            &&& exprs_complete(parse_more_arguments_spec(st, args).0->0)
        },
    decreases st.measure(), 1nat,
{
    lemma_advance_measure(st);
    if st.peek_is(TokenType::COMMA) {
        let st1 = st.advance();
        lemma_advance_measure(st1);
        let st2 = st1.advance();
        if !st2.cur_is(TokenType::EOF) {
            lemma_expression_follows(st2, Precedence::LOWEST);
            lemma_clean_expression_is_complete(st2, Precedence::LOWEST);
        }
        let (arg, st3) = if !st2.cur_is(TokenType::EOF) {
            parse_expression_spec(st2, Precedence::LOWEST)
        } else {
            no_prefix_result(st2)
        };
        lemma_more_arguments_follow(st3, args.push(arg));
        if clean(st, st3) {
            lemma_push_complete(args, arg);
            lemma_more_arguments_clean(st3, args.push(arg));
        }
    }
}

proof fn lemma_arguments_clean(st: ParserView)
    ensures
        clean(st, parse_call_arguments_spec(st).1) ==> {
            &&& parse_call_arguments_spec(st).0 is Some
            &&& exprs_complete(parse_call_arguments_spec(st).0->0)
        },
    decreases st.measure(), 2nat,
{
    lemma_advance_measure(st);
    if !st.peek_is(TokenType::RPAREN) {
        let st1 = st.advance();
        if !st1.cur_is(TokenType::EOF) {
            lemma_expression_follows(st1, Precedence::LOWEST);
            lemma_clean_expression_is_complete(st1, Precedence::LOWEST);
        }
        let (first, st2) = if !st1.cur_is(TokenType::EOF) {
            parse_expression_spec(st1, Precedence::LOWEST)
        } else {
            no_prefix_result(st1)
        };
        lemma_more_arguments_follow(st2, seq![first]);
        if clean(st, st2) {
            assert(exprs_complete(seq![first]));
            lemma_more_arguments_clean(st2, seq![first]);
        }
    }
}

proof fn lemma_call_clean(func: ExprView, st: ParserView)
    requires
        expr_complete(func),
    ensures
        clean(st, parse_call_spec(func, st).1) ==> expr_complete(parse_call_spec(func, st).0),
    decreases st.measure(), 3nat,
{
    lemma_advance_measure(st);
    lemma_arguments_follow(st.advance());
    lemma_arguments_clean(st.advance());
}

proof fn lemma_statements_clean(st: ParserView, done: Seq<StmtView>, in_block: bool)
    requires
        stmts_complete(done),
    ensures
        clean(st, parse_statements_spec(st, done, in_block).1) ==> stmts_complete(
            parse_statements_spec(st, done, in_block).0,
        ),
    decreases st.measure(), 9nat,
{
    if !(st.cur_is(TokenType::EOF) || (in_block && st.cur_is(TokenType::RBRACE))) {
        lemma_statement_follows(st);
        lemma_statement_clean(st);
        let (parsed, st1) = parse_statement_spec(st);
        lemma_advance_measure(st1);
        let st2 = st1.advance();
        let next = match parsed {
            Some(stmt) => done.push(stmt),
            None => done,
        };
        if st2.measure() < st.measure() {
            lemma_statements_follow(st2, next, in_block);
            if clean(st, st2) {
                assert forall|i: int| 0 <= i < next.len() implies stmt_complete(
                    #[trigger] next[i],
                ) by {
                    if i < done.len() {
                        assert(next[i] == done[i]);
                    }
                }
                lemma_statements_clean(st2, next, in_block);
            }
        }
    }
}

proof fn lemma_block_clean(st: ParserView)
    ensures
        clean(st, parse_block_spec(st).1) ==> stmt_complete(parse_block_spec(st).0),
    decreases st.measure(), 10nat,
{
    lemma_advance_measure(st);
    lemma_statements_clean(st.advance(), Seq::empty(), true);
}

proof fn lemma_statement_clean(st: ParserView)
    ensures
        clean(st, parse_statement_spec(st).1) ==> {
            &&& parse_statement_spec(st).0 is Some
            &&& stmt_complete(parse_statement_spec(st).0->0)
        },
    decreases st.measure(), 8nat,
{
    match st.cur.kind {
        TokenType::LET => {
            lemma_advance_measure(st);
            let (named, st1) = st.require_peek(TokenType::IDENT);
            if named {
                lemma_advance_measure(st1);
                let (assigned, st2) = st1.require_peek(TokenType::ASSIGN);
                if assigned {
                    lemma_advance_measure(st2);
                    lemma_expression_follows(st2.advance(), Precedence::LOWEST);
                    lemma_clean_expression_is_complete(st2.advance(), Precedence::LOWEST);
                    lemma_skip_follows(
                        parse_expression_spec(st2.advance(), Precedence::LOWEST).1,
                    );
                }
            }
        },
        TokenType::RETURN => {
            lemma_advance_measure(st);
            lemma_expression_follows(st.advance(), Precedence::LOWEST);
            lemma_clean_expression_is_complete(st.advance(), Precedence::LOWEST);
            lemma_skip_follows(parse_expression_spec(st.advance(), Precedence::LOWEST).1);
        },
        _ => {
            lemma_expression_follows(st, Precedence::LOWEST);
            lemma_clean_expression_is_complete(st, Precedence::LOWEST);
            lemma_advance_measure(parse_expression_spec(st, Precedence::LOWEST).1);
        },
    }
}

/// A program parsed without diagnostic has only whole statements: the
/// sentinel stands nowhere in it.
pub proof fn lemma_clean_program_is_complete(st: ParserView)
    ensures
        clean(st, parse_program_spec(st).1) ==> stmts_complete(parse_program_spec(st).0),
{
    lemma_statements_clean(st, Seq::empty(), false);
}

} // verus!
