//! What evaluation means: the value of every statement and expression,
//! and the environment it leaves, as functions of the syntax tree, the
//! environment before, and the call depth that is left.

use crate::ast::{render_expr, ExprView, StmtView};
use crate::environment::EnvView;
use crate::object::{Object, ObjectView};
use vstd::prelude::*;

verus! {

/// The error value with the given message.
pub open spec fn error_value(message: Seq<char>) -> ObjectView {
    ObjectView::Error { message }
}

/// The value of `!right`: a boolean inverted, every other value false.
pub open spec fn bang_value(right: ObjectView) -> ObjectView {
    match right {
        ObjectView::Boolean { value } => ObjectView::Boolean { value: !value },
        _ => ObjectView::Boolean { value: false },
    }
}

/// The value of `-right`: an integer negated (wrapping at the ends of the
/// 64-bit range), an error for every other value.
pub open spec fn minus_value(right: ObjectView) -> ObjectView {
    match right {
        ObjectView::Integer { value } => ObjectView::Integer { value: 0i64.wrapping_sub(value) },
        _ => error_value("unknown operator: -"@ + right.kind_name()),
    }
}

/// The value of a prefix operator applied to a value.
pub open spec fn prefix_value(operator: Seq<char>, right: ObjectView) -> ObjectView {
    if operator == "!"@ {
        bang_value(right)
    } else if operator == "-"@ {
        minus_value(right)
    } else {
        error_value("unknown operator: "@ + operator + right.kind_name())
    }
}

/// Division that rounds towards zero.
pub open spec fn truncated_quotient(x: int, d: int) -> int {
    if x >= 0 && d > 0 {
        x / d
    } else if x < 0 && d < 0 {
        (-x) / (-d)
    } else if x < 0 {
        -((-x) / d)
    } else {
        -(x / (-d))
    }
}

/// The value of an operator between two integers. Sums, differences and
/// products wrap at the ends of the 64-bit range; a quotient rounds
/// towards zero, and dividing by zero is an error. An operator that
/// integers do not have gives null.
pub open spec fn int_infix_value(left: i64, operator: Seq<char>, right: i64) -> ObjectView {
    if operator == "+"@ {
        ObjectView::Integer { value: left.wrapping_add(right) }
    } else if operator == "-"@ {
        ObjectView::Integer { value: left.wrapping_sub(right) }
    } else if operator == "*"@ {
        ObjectView::Integer { value: left.wrapping_mul(right) }
    } else if operator == "/"@ {
        if right == 0 {
            error_value("division by zero"@)
        } else if left == i64::MIN && right == -1 {
            ObjectView::Integer { value: i64::MIN }
        } else {
            ObjectView::Integer { value: truncated_quotient(left as int, right as int) as i64 }
        }
    } else if operator == "<"@ {
        ObjectView::Boolean { value: left < right }
    } else if operator == ">"@ {
        ObjectView::Boolean { value: left > right }
    } else if operator == "=="@ {
        ObjectView::Boolean { value: left == right }
    } else if operator == "!="@ {
        ObjectView::Boolean { value: left != right }
    } else {
        ObjectView::Null
    }
}

/// The value of an operator between two booleans: only equality and
/// inequality are defined; any other operator gives null.
pub open spec fn bool_infix_value(left: bool, operator: Seq<char>, right: bool) -> ObjectView {
    if operator == "=="@ {
        ObjectView::Boolean { value: left == right }
    } else if operator == "!="@ {
        ObjectView::Boolean { value: left != right }
    } else {
        ObjectView::Null
    }
}

/// The message for an operator that the operands' type does not have.
pub open spec fn unknown_operator(
    left: ObjectView,
    operator: Seq<char>,
    right: ObjectView,
) -> Seq<char> {
    "unknown operator: "@ + left.kind_name() + " "@ + operator + " "@ + right.kind_name()
}

/// The message for operands of different types.
pub open spec fn type_mismatch(
    left: ObjectView,
    operator: Seq<char>,
    right: ObjectView,
) -> Seq<char> {
    "type mismatch: "@ + left.kind_name() + " "@ + operator + " "@ + right.kind_name()
}

/// The value of an infix operator between two values: by the operands'
/// types, with an error for operands of different types and for operators
/// that integers or booleans do not have. Operands of one type other than
/// integer and boolean give null.
pub open spec fn infix_value(
    left: ObjectView,
    operator: Seq<char>,
    right: ObjectView,
) -> ObjectView {
    match left {
        ObjectView::Integer { value: l } => match right {
            ObjectView::Integer { value: r } => if int_infix_value(l, operator, r) is Null {
                error_value(unknown_operator(left, operator, right))
            } else {
                int_infix_value(l, operator, r)
            },
            _ => error_value(type_mismatch(left, operator, right)),
        },
        ObjectView::Boolean { value: l } => match right {
            ObjectView::Boolean { value: r } => if bool_infix_value(l, operator, r) is Null {
                error_value(unknown_operator(left, operator, right))
            } else {
                bool_infix_value(l, operator, r)
            },
            _ => error_value(type_mismatch(left, operator, right)),
        },
        _ => if left.kind_name() != right.kind_name() {
            error_value(type_mismatch(left, operator, right))
        } else {
            ObjectView::Null
        },
    }
}

/// Whether a condition counts as true: a boolean by its value, null as
/// false, every other value as true.
pub open spec fn truthy(value: ObjectView) -> bool {
    match value {
        ObjectView::Boolean { value } => value,
        ObjectView::Null => false,
        _ => true,
    }
}

/// What a return signal carries; any other value itself.
pub open spec fn unwrap_return(value: ObjectView) -> ObjectView {
    match value {
        ObjectView::Return { value } => *value,
        _ => value,
    }
}

/// The environment after binding parameters to arguments, pair by pair in
/// order. Parameters without argument stay unbound, arguments without
/// parameter are ignored.
pub open spec fn bind_params(
    env: EnvView,
    parameters: Seq<ExprView>,
    args: Seq<ObjectView>,
) -> EnvView
    decreases parameters.len(),
{
    if parameters.len() == 0 || args.len() == 0 {
        env
    } else {
        bind_params(
            env.bind(render_expr(parameters[0]), args[0]),
            parameters.drop_first(),
            args.drop_first(),
        )
    }
}

/// The result of evaluating statements in order, where `last` is the
/// result so far: the value of the last statement, but the carried value
/// as soon as a statement gives a return signal, and the error as soon as
/// one gives an error. Later statements are then not evaluated.
pub open spec fn eval_seq_spec(
    stmts: Seq<StmtView>,
    last: ObjectView,
    env: EnvView,
    depth: nat,
) -> (ObjectView, EnvView)
    decreases depth, stmts,
{
    if stmts.len() == 0 {
        (last, env)
    } else {
        let (r, env1) = eval_stmt_spec(stmts[0], env, depth);
        match r {
            ObjectView::Return { value } => (*value, env1),
            ObjectView::Error { .. } => (r, env1),
            _ => eval_seq_spec(stmts.drop_first(), r, env1, depth),
        }
    }
}

/// The result of evaluating one statement, and the environment after it.
pub open spec fn eval_stmt_spec(s: StmtView, env: EnvView, depth: nat) -> (ObjectView, EnvView)
    decreases depth, s,
{
    match s {
        StmtView::LetStatement { name, value, .. } => {
            let (evaluated, env1) = eval_expr_spec(value, env, depth);
            if evaluated is Error {
                (evaluated, env1)
            } else {
                match name {
                    ExprView::Identifier { value: key, .. } => (
                        evaluated,
                        env1.bind(key, unwrap_return(evaluated)),
                    ),
                    _ => (evaluated, env1),
                }
            }
        },
        StmtView::ReturnStatement { value, .. } => {
            let (evaluated, env1) = eval_expr_spec(value, env, depth);
            if evaluated is Error {
                (evaluated, env1)
            } else {
                (ObjectView::Return { value: Box::new(evaluated) }, env1)
            }
        },
        StmtView::ExpressionStatement { expression, .. } => eval_expr_spec(expression, env, depth),
        StmtView::BlockStatement { statements, .. } => {
            let (evaluated, env1) = eval_seq_spec(statements, ObjectView::Null, env, depth);
            if evaluated is Error {
                (evaluated, env1)
            } else {
                (ObjectView::Return { value: Box::new(evaluated) }, env1)
            }
        },
    }
}

/// The values of call arguments evaluated left to right after the values
/// `acc`, or the first error alone, and the environment afterwards.
pub open spec fn eval_args_spec(
    args: Seq<ExprView>,
    acc: Seq<ObjectView>,
    env: EnvView,
    depth: nat,
) -> (Seq<ObjectView>, EnvView)
    decreases depth, args,
{
    if args.len() == 0 {
        (acc, env)
    } else {
        let (evaluated, env1) = eval_expr_spec(args[0], env, depth);
        if evaluated is Error {
            (seq![evaluated], env1)
        } else {
            eval_args_spec(args.drop_first(), acc.push(evaluated), env1, depth)
        }
    }
}

/// The environment in which a function's body runs: a fresh scope inside
/// the scope the function was defined in, with the parameters bound.
pub open spec fn call_scope(function: ObjectView, args: Seq<ObjectView>, env: EnvView) -> EnvView {
    bind_params(env.enter(function->env), function->parameters, args)
}

/// The result of evaluating one expression, and the environment after it.
pub open spec fn eval_expr_spec(e: ExprView, env: EnvView, depth: nat) -> (ObjectView, EnvView)
    decreases depth, e,
{
    match e {
        ExprView::Identifier { value, .. } => match env.lookup(value) {
            Some(found) => (found, env),
            None => (error_value("identifier not found: "@ + value), env),
        },
        ExprView::IntegerLiteral { value, .. } => (ObjectView::Integer { value: value as i64 }, env),
        ExprView::BooleanLiteral { value, .. } => (ObjectView::Boolean { value }, env),
        ExprView::Prefix { operator, right, .. } => {
            let (evaluated, env1) = eval_expr_spec(*right, env, depth);
            if evaluated is Error {
                (evaluated, env1)
            } else {
                (prefix_value(operator, evaluated), env1)
            }
        },
        ExprView::Infix { left, operator, right, .. } => {
            let (l, env1) = eval_expr_spec(*left, env, depth);
            if l is Error {
                (l, env1)
            } else {
                let (r, env2) = eval_expr_spec(*right, env1, depth);
                if r is Error {
                    (r, env2)
                } else {
                    (infix_value(l, operator, r), env2)
                }
            }
        },
        ExprView::IfExpression { condition, consequence, alternative, .. } => {
            let (cond, env1) = eval_expr_spec(*condition, env, depth);
            if cond is Error {
                (cond, env1)
            } else if truthy(cond) {
                eval_stmt_spec(*consequence, env1, depth)
            } else {
                match alternative {
                    Some(alt) => eval_stmt_spec(*alt, env1, depth),
                    None => (ObjectView::Null, env1),
                }
            }
        },
        ExprView::FuncExpression { parameters, body, .. } => (
            ObjectView::Function { parameters, body, env: env.current },
            env,
        ),
        ExprView::CallExpression { func, args, .. } => {
            let (function, env1) = eval_expr_spec(*func, env, depth);
            if function is Error {
                (function, env1)
            } else {
                let (values, env2) = eval_args_spec(args, Seq::empty(), env1, depth);
                if values.len() == 1 && values[0] is Error {
                    (values[0], env2)
                } else if !(function is Function) {
                    (error_value("not a function: "@ + function.kind_name()), env2)
                } else if depth == 0 {
                    (error_value("call depth exceeded"@), env2)
                } else {
                    let (evaluated, env3) = eval_stmt_spec(
                        *function->body,
                        call_scope(function, values, env2),
                        (depth - 1) as nat,
                    );
                    (unwrap_return(evaluated), env3.with_current(env2.current))
                }
            }
        },
        ExprView::NoExpression => (error_value("no expression"@), env),
    }
}

/// The result of applying a function to argument values: the value of its
/// body in its call scope, without the return signal around it. Afterwards
/// the caller's scope is current again. With no depth left the result is an
/// error and nothing is evaluated.
pub open spec fn apply_spec(
    function: ObjectView,
    args: Seq<ObjectView>,
    env: EnvView,
    depth: nat,
) -> (ObjectView, EnvView) {
    if depth == 0 {
        (error_value("call depth exceeded"@), env)
    } else {
        let (evaluated, env1) = eval_stmt_spec(
            *function->body,
            call_scope(function, args, env),
            (depth - 1) as nat,
        );
        (unwrap_return(evaluated), env1.with_current(env.current))
    }
}

/// The result of evaluating the statements of a program in order.
pub open spec fn eval_statements_spec(stmts: Seq<StmtView>, env: EnvView, depth: nat) -> (
    ObjectView,
    EnvView,
) {
    eval_seq_spec(stmts, ObjectView::Null, env, depth)
}

/// The models of a vector of values, in order.
pub open spec fn objects_model(v: &Vec<Object>) -> Seq<ObjectView> {
    Seq::new(v.len() as nat, |i: int| v[i]@)
}

/// The results of the statements of a sequence, one by one, after the
/// results `seen`: every statement up to and including the first that
/// gives a return signal or an error; and the environment afterwards.
pub open spec fn eval_trace_spec(
    stmts: Seq<StmtView>,
    seen: Seq<ObjectView>,
    env: EnvView,
    depth: nat,
) -> (Seq<ObjectView>, EnvView)
    decreases stmts.len(),
{
    if stmts.len() == 0 {
        (seen, env)
    } else {
        let (r, env1) = eval_stmt_spec(stmts[0], env, depth);
        if r is Return || r is Error {
            (seen.push(r), env1)
        } else {
            eval_trace_spec(stmts.drop_first(), seen.push(r), env1, depth)
        }
    }
}

/// The result of a sequence, read off the results of its statements: null
/// for no statement, else what the last result is or carries.
pub open spec fn trace_result(trace: Seq<ObjectView>) -> ObjectView {
    if trace.len() == 0 {
        ObjectView::Null
    } else {
        unwrap_return(trace.last())
    }
}

} // verus!
