//! What holds of every evaluation: an error ends a statement sequence,
//! and evaluation comes back to the scope it started in, leaving the
//! other scopes as they were.

use crate::ast::{render_expr, ExprView, StmtView};
use crate::environment::EnvView;
use crate::evaluator::model::{
    apply_spec, bind_params, call_scope, eval_args_spec, eval_expr_spec, eval_seq_spec,
    eval_statements_spec, eval_stmt_spec, eval_trace_spec, trace_result, truthy, unwrap_return,
};
use crate::object::ObjectView;
use vstd::prelude::*;

verus! {

/// An error ends a statement sequence. If the first `k` statements alone
/// evaluate to an error, the whole sequence evaluates to that error and
/// leaves the environment as those `k` statements left it: no statement
/// after the failing one is evaluated.
pub proof fn lemma_error_halts_sequence(
    stmts: Seq<StmtView>,
    k: int,
    env: EnvView,
    depth: nat,
)
    requires
        0 <= k <= stmts.len(),
        eval_statements_spec(stmts.take(k), env, depth).0 is Error,
    ensures
        eval_statements_spec(stmts, env, depth) == eval_statements_spec(stmts.take(k), env, depth),
{
    lemma_error_halts_from(stmts, k, ObjectView::Null, env, depth);
}

proof fn lemma_error_halts_from(
    stmts: Seq<StmtView>,
    k: int,
    last: ObjectView,
    env: EnvView,
    depth: nat,
)
    requires
        0 <= k <= stmts.len(),
        !(last is Error),
        eval_seq_spec(stmts.take(k), last, env, depth).0 is Error,
    ensures
        eval_seq_spec(stmts, last, env, depth) == eval_seq_spec(stmts.take(k), last, env, depth),
    decreases stmts.len(),
{
    let prefix = stmts.take(k);
    if k > 0 {
        assert(prefix[0] == stmts[0]);
        let (r, env1) = eval_stmt_spec(stmts[0], env, depth);
        if !(r is Return) && !(r is Error) {
            assert(prefix.drop_first() =~= stmts.drop_first().take(k - 1));
            lemma_error_halts_from(stmts.drop_first(), k - 1, r, env1, depth);
        }
    }
}

/// Evaluating a sequence statement by statement gives the sequence's
/// result as the last entry, and leaves the same environment.
pub proof fn lemma_trace_agrees(stmts: Seq<StmtView>, env: EnvView, depth: nat)
    ensures
        eval_statements_spec(stmts, env, depth) == (
            trace_result(eval_trace_spec(stmts, Seq::empty(), env, depth).0),
            eval_trace_spec(stmts, Seq::empty(), env, depth).1,
        ),
{
    lemma_trace_agrees_from(stmts, Seq::empty(), ObjectView::Null, env, depth);
}

proof fn lemma_trace_agrees_from(
    stmts: Seq<StmtView>,
    seen: Seq<ObjectView>,
    last: ObjectView,
    env: EnvView,
    depth: nat,
)
    requires
        last == trace_result(seen),
        seen.len() > 0 ==> !(seen.last() is Return),
    ensures
        eval_seq_spec(stmts, last, env, depth) == (
            trace_result(eval_trace_spec(stmts, seen, env, depth).0),
            eval_trace_spec(stmts, seen, env, depth).1,
        ),
    decreases stmts.len(),
{
    if stmts.len() > 0 {
        let (r, env1) = eval_stmt_spec(stmts[0], env, depth);
        assert(seen.push(r).last() == r);
        if !(r is Return) && !(r is Error) {
            lemma_trace_agrees_from(stmts.drop_first(), seen.push(r), r, env1, depth);
        }
    }
}

/// The results of a sequence come after the results seen before, which
/// stay as they are.
proof fn lemma_trace_extends(
    stmts: Seq<StmtView>,
    seen: Seq<ObjectView>,
    env: EnvView,
    depth: nat,
)
    ensures
        eval_trace_spec(stmts, seen, env, depth).0.len() >= seen.len(),
        eval_trace_spec(stmts, seen, env, depth).0.len() == seen.len() ==> eval_trace_spec(
            stmts,
            seen,
            env,
            depth,
        ).0 == seen,
    decreases stmts.len(),
{
    if stmts.len() > 0 {
        let (r, env1) = eval_stmt_spec(stmts[0], env, depth);
        if !(r is Return) && !(r is Error) {
            lemma_trace_extends(stmts.drop_first(), seen.push(r), env1, depth);
        }
    }
}

proof fn lemma_signal_halts_from(
    stmts: Seq<StmtView>,
    k: int,
    seen: Seq<ObjectView>,
    env: EnvView,
    depth: nat,
)
    requires
        0 <= k <= stmts.len(),
        eval_trace_spec(stmts.take(k), seen, env, depth).0.len() > seen.len(),
        eval_trace_spec(stmts.take(k), seen, env, depth).0.last() is Return || eval_trace_spec(
            stmts.take(k),
            seen,
            env,
            depth,
        ).0.last() is Error,
    ensures
        eval_trace_spec(stmts, seen, env, depth) == eval_trace_spec(
            stmts.take(k),
            seen,
            env,
            depth,
        ),
    decreases stmts.len(),
{
    let prefix = stmts.take(k);
    if k > 0 {
        assert(prefix[0] == stmts[0]);
        let (r, env1) = eval_stmt_spec(stmts[0], env, depth);
        if !(r is Return) && !(r is Error) {
            assert(prefix.drop_first() =~= stmts.drop_first().take(k - 1));
            lemma_trace_extends(prefix.drop_first(), seen.push(r), env1, depth);
            assert(seen.push(r).last() == r);
            lemma_signal_halts_from(stmts.drop_first(), k - 1, seen.push(r), env1, depth);
        }
    }
}

/// A return signal or an error ends a statement sequence. If of the first
/// `k` statements the last one evaluated gives a return signal or an
/// error, then the whole sequence gives the same results, the same value
/// and the same environment as those `k` statements alone: what the
/// signal carries is the value, wherever in nested blocks the `return`
/// stood, and no statement after it is evaluated.
pub proof fn lemma_signal_halts_sequence(
    stmts: Seq<StmtView>,
    k: int,
    env: EnvView,
    depth: nat,
)
    requires
        0 <= k <= stmts.len(),
        eval_trace_spec(stmts.take(k), Seq::empty(), env, depth).0.len() > 0,
        eval_trace_spec(stmts.take(k), Seq::empty(), env, depth).0.last() is Return
            || eval_trace_spec(stmts.take(k), Seq::empty(), env, depth).0.last() is Error,
    ensures
        eval_trace_spec(stmts, Seq::empty(), env, depth) == eval_trace_spec(
            stmts.take(k),
            Seq::empty(),
            env,
            depth,
        ),
        eval_statements_spec(stmts, env, depth) == eval_statements_spec(stmts.take(k), env, depth),
        eval_statements_spec(stmts, env, depth).0 == unwrap_return(
            eval_trace_spec(stmts.take(k), Seq::empty(), env, depth).0.last(),
        ),
{
    lemma_signal_halts_from(stmts, k, Seq::empty(), env, depth);
    lemma_trace_agrees(stmts, env, depth);
    lemma_trace_agrees(stmts.take(k), env, depth);
}

/// What evaluation leaves of the scopes: the scope that was current is
/// current again, no scope is gone, and every scope but the current one
/// is as it was.
pub open spec fn keeps_scope(before: EnvView, after: EnvView) -> bool {
    &&& after.current == before.current
    &&& after.scopes.len() >= before.scopes.len()
    &&& forall|i: int|
        0 <= i < before.scopes.len() && i != before.current ==> after.scopes[i]
            == before.scopes[i]
}

/// Binding parameters changes neither the current scope nor the number of
/// scopes, and no scope but the current one.
pub proof fn lemma_bind_params_keeps_scope(
    env: EnvView,
    parameters: Seq<ExprView>,
    args: Seq<ObjectView>,
)
    requires
        env.wf(),
    ensures
        bind_params(env, parameters, args).current == env.current,
        bind_params(env, parameters, args).scopes.len() == env.scopes.len(),
        forall|i: int|
            0 <= i < env.scopes.len() && i != env.current ==> bind_params(
                env,
                parameters,
                args,
            ).scopes[i] == env.scopes[i],
    decreases parameters.len(),
{
    if parameters.len() > 0 && args.len() > 0 {
        let bound = env.bind(render_expr(parameters[0]), args[0]);
        let after = bind_params(bound, parameters.drop_first(), args.drop_first());
        lemma_bind_params_keeps_scope(bound, parameters.drop_first(), args.drop_first());
        assert forall|i: int| 0 <= i < env.scopes.len() && i != env.current implies after.scopes[i]
            == env.scopes[i] by {
            assert(after.scopes[i] == bound.scopes[i]);
        }
    }
}

/// Evaluating a statement sequence returns to the scope it started in and
/// loses no scope.
pub proof fn lemma_seq_keeps_scope(
    stmts: Seq<StmtView>,
    last: ObjectView,
    env: EnvView,
    depth: nat,
)
    requires
        env.wf(),
    ensures
        keeps_scope(env, eval_seq_spec(stmts, last, env, depth).1),
    decreases depth, 1nat, stmts,
{
    if stmts.len() > 0 {
        lemma_stmt_keeps_scope(stmts[0], env, depth);
        let (r, env1) = eval_stmt_spec(stmts[0], env, depth);
        if !(r is Return) && !(r is Error) {
            lemma_seq_keeps_scope(stmts.drop_first(), r, env1, depth);
        }
    }
}

/// Evaluating a statement returns to the scope it started in and loses no
/// scope.
pub proof fn lemma_stmt_keeps_scope(s: StmtView, env: EnvView, depth: nat)
    requires
        env.wf(),
    ensures
        keeps_scope(env, eval_stmt_spec(s, env, depth).1),
    decreases depth, 1nat, s,
{
    match s {
        StmtView::LetStatement { value, .. } => {
            lemma_expr_keeps_scope(value, env, depth);
        },
        StmtView::ReturnStatement { value, .. } => {
            lemma_expr_keeps_scope(value, env, depth);
        },
        StmtView::ExpressionStatement { expression, .. } => {
            lemma_expr_keeps_scope(expression, env, depth);
        },
        StmtView::BlockStatement { statements, .. } => {
            lemma_seq_keeps_scope(statements, ObjectView::Null, env, depth);
        },
    }
}

/// Evaluating call arguments returns to the scope it started in and loses
/// no scope.
pub proof fn lemma_args_keep_scope(
    args: Seq<ExprView>,
    acc: Seq<ObjectView>,
    env: EnvView,
    depth: nat,
)
    requires
        env.wf(),
    ensures
        keeps_scope(env, eval_args_spec(args, acc, env, depth).1),
    decreases depth, 1nat, args,
{
    if args.len() > 0 {
        lemma_expr_keeps_scope(args[0], env, depth);
        let (evaluated, env1) = eval_expr_spec(args[0], env, depth);
        if !(evaluated is Error) {
            lemma_args_keep_scope(args.drop_first(), acc.push(evaluated), env1, depth);
        }
    }
}

/// Evaluating an expression returns to the scope it started in and loses
/// no scope: a call runs in a scope of its own and comes back.
pub proof fn lemma_expr_keeps_scope(e: ExprView, env: EnvView, depth: nat)
    requires
        env.wf(),
    ensures
        keeps_scope(env, eval_expr_spec(e, env, depth).1),
    decreases depth, 1nat, e,
{
    match e {
        ExprView::Prefix { right, .. } => {
            lemma_expr_keeps_scope(*right, env, depth);
        },
        ExprView::Infix { left, right, .. } => {
            lemma_expr_keeps_scope(*left, env, depth);
            let (l, env1) = eval_expr_spec(*left, env, depth);
            if !(l is Error) {
                lemma_expr_keeps_scope(*right, env1, depth);
            }
        },
        ExprView::IfExpression { condition, consequence, alternative, .. } => {
            lemma_expr_keeps_scope(*condition, env, depth);
            let (cond, env1) = eval_expr_spec(*condition, env, depth);
            if !(cond is Error) {
                if truthy(cond) {
                    lemma_stmt_keeps_scope(*consequence, env1, depth);
                } else {
                    match alternative {
                        Some(alt) => {
                            lemma_stmt_keeps_scope(*alt, env1, depth);
                        },
                        None => {},
                    }
                }
            }
        },
        ExprView::CallExpression { func, args, .. } => {
            lemma_expr_keeps_scope(*func, env, depth);
            let (function, env1) = eval_expr_spec(*func, env, depth);
            if !(function is Error) {
                lemma_args_keep_scope(args, Seq::empty(), env1, depth);
                let (values, env2) = eval_args_spec(args, Seq::empty(), env1, depth);
                if !(values.len() == 1 && values[0] is Error) && function is Function && depth
                    > 0 {
                    lemma_call_leaves_callers_scopes(function, values, env2, depth);
                }
                let after = eval_expr_spec(e, env, depth).1;
                assert forall|i: int|
                    0 <= i < env.scopes.len() && i != env.current implies after.scopes[i]
                    == env.scopes[i] by {
                    assert(env1.scopes[i] == env.scopes[i]);
                    assert(env2.scopes[i] == env1.scopes[i]);
                }
            }
        },
        _ => {},
    }
}

/// A call leaves every scope of its caller as it was: what a function
/// binds, it binds in a scope of its own.
pub proof fn lemma_call_leaves_callers_scopes(
    function: ObjectView,
    args: Seq<ObjectView>,
    env: EnvView,
    depth: nat,
)
    requires
        env.wf(),
    ensures
        apply_spec(function, args, env, depth).1.current == env.current,
        apply_spec(function, args, env, depth).1.scopes.len() >= env.scopes.len(),
        forall|i: int|
            0 <= i < env.scopes.len() ==> apply_spec(function, args, env, depth).1.scopes[i]
                == env.scopes[i],
    decreases depth, 0nat, function,
{
    if depth > 0 {
        let entered = env.enter(function->env);
        let inside = call_scope(function, args, env);
        lemma_bind_params_keeps_scope(entered, function->parameters, args);
        lemma_stmt_keeps_scope(*function->body, inside, (depth - 1) as nat);
        let after = apply_spec(function, args, env, depth).1;
        assert forall|i: int| 0 <= i < env.scopes.len() implies after.scopes[i]
            == env.scopes[i] by {
            assert(entered.scopes[i] == env.scopes[i]);
            assert(inside.scopes[i] == entered.scopes[i]);
        }
    }
}

} // verus!
