//! The evaluator: walks the syntax tree and produces runtime values.
//! Early return and errors travel as values (`Return`, `Error`) that every
//! step checks before it goes on.

pub mod laws;
pub mod model;

use crate::ast::{
    clone_expressions, clone_statement, exprs_model, lemma_block_model, lemma_call_model,
    lemma_func_model, render_expression, stmts_model, ExprView, Expression, Statement,
};
use crate::environment::Environment;
use crate::evaluator::model::{
    apply_spec, bang_value, bind_params, bool_infix_value, eval_args_spec, eval_expr_spec,
    eval_seq_spec, eval_statements_spec, eval_stmt_spec, eval_trace_spec, infix_value,
    int_infix_value, minus_value, objects_model, prefix_value, truncated_quotient,
};
use crate::object::{clone_object, Object, ObjectView};
use crate::text::str_eq;
use vstd::prelude::*;
use vstd::string::*;

verus! {

/// How deeply function calls may nest before evaluation gives up with an
/// error instead of exhausting the machine's stack. The functions that
/// take a depth of their own accept any other bound.
pub const MAX_CALL_DEPTH: usize = 100;

/// Evaluates `!right`.
pub fn eval_bang_operator_expr(right: Object) -> (r: Object)
    ensures
        r@ == bang_value(right@),
{
    match right {
        Object::Boolean { value } => Object::Boolean { value: !value },
        _ => Object::Boolean { value: false },
    }
}

/// Evaluates `-right`.
pub fn eval_minus_operator_expr(right: Object) -> (r: Object)
    ensures
        r@ == minus_value(right@),
{
    match right {
        Object::Integer { value } => Object::Integer { value: 0i64.wrapping_sub(value) },
        _ => {
            let mut message = String::from_str("unknown operator: -");
            message.append(right.get_type().as_str());
            Object::Error { message }
        },
    }
}

/// Evaluates a prefix operator applied to a value.
pub fn eval_prefix_expr(operator: String, right: Object) -> (r: Object)
    ensures
        r@ == prefix_value(operator@, right@),
{
    if str_eq(operator.as_str(), "!") {
        eval_bang_operator_expr(right)
    } else if str_eq(operator.as_str(), "-") {
        eval_minus_operator_expr(right)
    } else {
        let mut message = String::from_str("unknown operator: ");
        message.append(operator.as_str());
        message.append(right.get_type().as_str());
        Object::Error { message }
    }
}

/// Evaluates an operator between two integers.
pub fn eval_int_infix_expr(left: i64, operator: String, right: i64) -> (r: Object)
    ensures
        r@ == int_infix_value(left, operator@, right),
{
    let op = operator.as_str();
    if str_eq(op, "+") {
        Object::Integer { value: left.wrapping_add(right) }
    } else if str_eq(op, "-") {
        Object::Integer { value: left.wrapping_sub(right) }
    } else if str_eq(op, "*") {
        Object::Integer { value: left.wrapping_mul(right) }
    } else if str_eq(op, "/") {
        if right == 0 {
            Object::Error { message: String::from_str("division by zero") }
        } else {
            match left.checked_div(right) {
                Some(quotient) => {
                    assert(quotient == truncated_quotient(left as int, right as int)) by {
                        assert((left as int) * -1 == -(left as int));
                        assert((right as int) * -1 == -(right as int));
                    }
                    assert(!(left == i64::MIN && right == -1)) by {
                        assert((-(i64::MIN as int)) / 1 == -(i64::MIN as int));
                    }
                    Object::Integer { value: quotient }
                },
                None => {
                    assert(left == i64::MIN && right == -1) by {
                        if !(left == i64::MIN && right == -1) {
                            lemma_quotient_bounds(left as int, right as int);
                            assert((left as int) * -1 == -(left as int));
                            assert((right as int) * -1 == -(right as int));
                        }
                    }
                    Object::Integer { value: i64::MIN }
                },
            }
        }
    } else if str_eq(op, "<") {
        Object::Boolean { value: left < right }
    } else if str_eq(op, ">") {
        Object::Boolean { value: left > right }
    } else if str_eq(op, "==") {
        Object::Boolean { value: left == right }
    } else if str_eq(op, "!=") {
        Object::Boolean { value: left != right }
    } else {
        Object::Null {  }
    }
}

/// A quotient of two 64-bit integers leaves the 64-bit range only when the
/// least integer is divided by minus one.
proof fn lemma_quotient_bounds(x: int, d: int)
    requires
        i64::MIN <= x <= i64::MAX,
        i64::MIN <= d <= i64::MAX,
        d != 0,
        !(x == i64::MIN && d == -1),
    ensures
        i64::MIN <= truncated_quotient(x, d) <= i64::MAX,
{
    if x >= 0 && d > 0 {
        assert(0 <= x / d <= x) by (nonlinear_arith)
            requires
                x >= 0,
                d > 0,
        ;
    } else if x < 0 && d < 0 {
        let a = -x;
        let b = -d;
        assert(0 <= a / b <= a) by (nonlinear_arith)
            requires
                a >= 0,
                b > 0,
        ;
        if b > 1 {
            assert(a / b < a) by (nonlinear_arith)
                requires
                    a > 0,
                    b > 1,
            ;
        }
    } else if x < 0 {
        let a = -x;
        assert(0 <= a / d <= a) by (nonlinear_arith)
            requires
                a >= 0,
                d > 0,
        ;
    } else {
        let b = -d;
        assert(0 <= x / b <= x) by (nonlinear_arith)
            requires
                x >= 0,
                b > 0,
        ;
    }
}

/// Evaluates an operator between two booleans.
pub fn eval_bool_infix_expr(left: bool, operator: String, right: bool) -> (r: Object)
    ensures
        r@ == bool_infix_value(left, operator@, right),
{
    let op = operator.as_str();
    if str_eq(op, "==") {
        Object::Boolean { value: left == right }
    } else if str_eq(op, "!=") {
        Object::Boolean { value: left != right }
    } else {
        Object::Null {  }
    }
}

/// Builds the message of an operand error: `prefix`, then the operand
/// types around the operator.
fn operand_message(
    prefix: &str,
    left: &Object,
    operator: &String,
    right: &Object,
) -> (message: String)
    ensures
        message@ == prefix@ + left@.kind_name() + " "@ + operator@ + " "@ + right@.kind_name(),
{
    let mut message = String::from_str(prefix);
    message.append(left.get_type().as_str());
    message.append(" ");
    message.append(operator.as_str());
    message.append(" ");
    message.append(right.get_type().as_str());
    message
}

/// Evaluates an infix operator between two values.
pub fn eval_infix_expr(left: Object, operator: String, right: Object) -> (r: Object)
    ensures
        r@ == infix_value(left@, operator@, right@),
{
    match left {
        Object::Integer { value: left_val } => {
            if let Object::Integer { value: right_val } = right {
                let evaluated = eval_int_infix_expr(left_val, operator.clone(), right_val);
                if let Object::Null {  } = evaluated {
                    return Object::Error {
                        message: operand_message("unknown operator: ", &left, &operator, &right),
                    };
                }
                return evaluated;
            }
            Object::Error { message: operand_message("type mismatch: ", &left, &operator, &right) }
        },
        Object::Boolean { value: left_val } => {
            if let Object::Boolean { value: right_val } = right {
                let evaluated = eval_bool_infix_expr(left_val, operator.clone(), right_val);
                if let Object::Null {  } = evaluated {
                    return Object::Error {
                        message: operand_message("unknown operator: ", &left, &operator, &right),
                    };
                }
                return evaluated;
            }
            Object::Error { message: operand_message("type mismatch: ", &left, &operator, &right) }
        },
        _ => {
            if !same_kind(&left, &right) {
                Object::Error {
                    message: operand_message("type mismatch: ", &left, &operator, &right),
                }
            } else {
                Object::Null {  }
            }
        },
    }
}

/// Whether two values are of one type.
fn same_kind(left: &Object, right: &Object) -> (r: bool)
    ensures
        r == (left@.kind_name() == right@.kind_name()),
{
    let a = left.get_type();
    let b = right.get_type();
    str_eq(a.as_str(), b.as_str())
}

/// Evaluates statements in order. Stops at the first return signal, whose
/// carried value is the result, and at the first error.
pub fn eval_block(statements: &Vec<Statement>, env: &mut Environment, depth: usize) -> (r: Object)
    requires
        old(env).wf(),
    ensures
        final(env).wf(),
        final(env)@.scopes.len() >= old(env)@.scopes.len(),
        (r@, final(env)@) == eval_statements_spec(stmts_model(statements), old(env)@, depth as nat),
    decreases depth, 1nat, statements, 0nat,
{
    let ghost all = stmts_model(statements);
    let mut result = Object::Null {  };
    let mut i: usize = 0;
    assert(all.skip(0) =~= all);
    while i < statements.len()
        invariant
            env.wf(),
            i <= statements.len(),
            all == stmts_model(statements),
            env@.scopes.len() >= old(env)@.scopes.len(),
            eval_seq_spec(all, ObjectView::Null, old(env)@, depth as nat) == eval_seq_spec(
                all.skip(i as int),
                result@,
                env@,
                depth as nat,
            ),
        decreases statements.len() - i,
    {
        proof {
            assert(all.skip(i as int)[0] == statements[i as int]@);
            assert(all.skip(i as int).drop_first() =~= all.skip(i + 1));
        }
        result = eval_stmt(&statements[i], env, depth);
        match result {
            Object::Return { value } => {
                return *value;
            },
            Object::Error { .. } => {
                return result;
            },
            _ => (),
        }
        i += 1;
    }
    result
}

/// Evaluates one statement.
pub fn eval_stmt(stmt: &Statement, env: &mut Environment, depth: usize) -> (r: Object)
    requires
        old(env).wf(),
    ensures
        final(env).wf(),
        final(env)@.scopes.len() >= old(env)@.scopes.len(),
        (r@, final(env)@) == eval_stmt_spec(stmt@, old(env)@, depth as nat),
    decreases depth, 1nat, stmt, 0nat,
{
    match stmt {
        Statement::LetStatement { name, value, .. } => {
            let evaluated = eval_expr(value, env, depth);
            if let Object::Error { .. } = evaluated {
                return evaluated;
            }
            if let Expression::Identifier { value: key_name, .. } = name {
                assert(name@ matches ExprView::Identifier { value: key, .. } && key == key_name@);
                let bound = match &evaluated {
                    Object::Return { value } => clone_object(value),
                    other => clone_object(other),
                };
                env.set(key_name.clone(), bound);
            } else {
                assert(!(name@ is Identifier));
            }
            evaluated
        },
        Statement::ReturnStatement { value, .. } => {
            let evaluated = eval_expr(value, env, depth);
            if let Object::Error { .. } = evaluated {
                return evaluated;
            }
            Object::Return { value: Box::new(evaluated) }
        },
        Statement::ExpressionStatement { expression, .. } => eval_expr(expression, env, depth),
        Statement::BlockStatement { statements, .. } => {
            proof {
                lemma_block_model(stmt);
            }
            let evaluated = eval_block(statements, env, depth);
            if let Object::Error { .. } = evaluated {
                return evaluated;
            }
            Object::Return { value: Box::new(evaluated) }
        },
    }
}

/// Evaluates one expression.
pub fn eval_expr(expr: &Expression, env: &mut Environment, depth: usize) -> (r: Object)
    requires
        old(env).wf(),
    ensures
        final(env).wf(),
        final(env)@.scopes.len() >= old(env)@.scopes.len(),
        (r@, final(env)@) == eval_expr_spec(expr@, old(env)@, depth as nat),
    decreases depth, 1nat, expr, 1nat,
{
    match expr {
        Expression::Identifier { value, .. } => {
            match env.get(value.clone()) {
                Some(found) => clone_object(found),
                None => {
                    let mut message = String::from_str("identifier not found: ");
                    message.append(value.as_str());
                    Object::Error { message }
                },
            }
        },
        Expression::IntegerLiteral { value, .. } => Object::Integer { value: *value as i64 },
        Expression::BooleanLiteral { value, .. } => Object::get_bool_obj(*value),
        Expression::Prefix { operator, right, .. } => {
            let evaluated = eval_expr(right, env, depth);
            if let Object::Error { .. } = evaluated {
                return evaluated;
            }
            eval_prefix_expr(operator.clone(), evaluated)
        },
        Expression::Infix { left, operator, right, .. } => {
            let evaluated_left = eval_expr(left, env, depth);
            if let Object::Error { .. } = evaluated_left {
                return evaluated_left;
            }
            let evaluated_right = eval_expr(right, env, depth);
            if let Object::Error { .. } = evaluated_right {
                return evaluated_right;
            }
            eval_infix_expr(evaluated_left, operator.clone(), evaluated_right)
        },
        Expression::IfExpression { .. } => eval_if_expr(expr, env, depth),
        Expression::FuncExpression { parameters, body, .. } => {
            proof {
                lemma_func_model(expr);
            }
            Object::Function {
                parameters: clone_expressions(parameters),
                body: Box::new(clone_statement(body)),
                env: env.current_scope(),
            }
        },
        Expression::CallExpression { func, args, .. } => {
            proof {
                lemma_call_model(expr);
            }
            let function = eval_expr(func, env, depth);
            if let Object::Error { .. } = function {
                return function;
            }
            let mut values = eval_args(args, env, depth);
            if values.len() == 1 {
                if let Object::Error { .. } = values[0] {
                    return values.remove(0);
                }
            }
            match function {
                Object::Function { .. } => apply_function(function, values, env, depth),
                _ => {
                    let mut message = String::from_str("not a function: ");
                    message.append(function.get_type().as_str());
                    Object::Error { message }
                },
            }
        },
        Expression::NoExpression => Object::Error { message: String::from_str("no expression") },
    }
}

/// Evaluates a conditional: the consequence when the condition counts as
/// true, else the alternative, or null where there is none.
pub fn eval_if_expr(expr: &Expression, env: &mut Environment, depth: usize) -> (r: Object)
    requires
        old(env).wf(),
        expr is IfExpression,
    ensures
        final(env).wf(),
        final(env)@.scopes.len() >= old(env)@.scopes.len(),
        (r@, final(env)@) == eval_expr_spec(expr@, old(env)@, depth as nat),
    decreases depth, 1nat, expr, 0nat,
{
    match expr {
        Expression::IfExpression { condition, consequence, alternative, .. } => {
            let cond = eval_expr(condition, env, depth);
            if let Object::Error { .. } = cond {
                return cond;
            }
            let cond_val: bool = match cond {
                Object::Boolean { value } => value,
                Object::Null {  } => false,
                _ => true,
            };
            if cond_val {
                eval_stmt(consequence, env, depth)
            } else if let Some(stmt) = &**alternative {
                eval_stmt(stmt, env, depth)
            } else {
                Object::Null {  }
            }
        },
        _ => unreached(),
    }
}

/// Evaluates call arguments left to right. At the first error the result
/// is that error alone.
pub fn eval_args(args: &Vec<Expression>, env: &mut Environment, depth: usize) -> (r: Vec<Object>)
    requires
        old(env).wf(),
    ensures
        final(env).wf(),
        final(env)@.scopes.len() >= old(env)@.scopes.len(),
        (objects_model(&r), final(env)@) == eval_args_spec(
            exprs_model(args),
            Seq::empty(),
            old(env)@,
            depth as nat,
        ),
    decreases depth, 1nat, args, 0nat,
{
    let ghost all = exprs_model(args);
    let mut results: Vec<Object> = Vec::new();
    let mut i: usize = 0;
    assert(objects_model(&results) =~= Seq::empty());
    assert(all.skip(0) =~= all);
    while i < args.len()
        invariant
            env.wf(),
            i <= args.len(),
            all == exprs_model(args),
            env@.scopes.len() >= old(env)@.scopes.len(),
            eval_args_spec(all, Seq::empty(), old(env)@, depth as nat) == eval_args_spec(
                all.skip(i as int),
                objects_model(&results),
                env@,
                depth as nat,
            ),
        decreases args.len() - i,
    {
        proof {
            assert(all.skip(i as int)[0] == args[i as int]@);
            assert(all.skip(i as int).drop_first() =~= all.skip(i + 1));
        }
        let evaluated = eval_expr(&args[i], env, depth);
        if let Object::Error { .. } = evaluated {
            let mut only: Vec<Object> = Vec::new();
            only.push(evaluated);
            assert(objects_model(&only) =~= seq![evaluated@]);
            return only;
        }
        let ghost before = objects_model(&results);
        results.push(evaluated);
        assert(objects_model(&results) =~= before.push(evaluated@));
        i += 1;
    }
    results
}

/// Applies a function to argument values: runs its body in a fresh scope
/// inside the scope the function was defined in, with the parameters
/// bound, and takes the result out of its return signal.
pub fn apply_function(
    function: Object,
    args: Vec<Object>,
    env: &mut Environment,
    depth: usize,
) -> (r: Object)
    requires
        old(env).wf(),
        function@ is Function,
    ensures
        final(env).wf(),
        final(env)@.scopes.len() >= old(env)@.scopes.len(),
        (r@, final(env)@) == apply_spec(function@, objects_model(&args), old(env)@, depth as nat),
    decreases depth, 0nat, function, 0nat,
{
    match function {
        Object::Function { parameters, body, env: defined_in } => {
            if depth == 0 {
                return Object::Error { message: String::from_str("call depth exceeded") };
            }
            let caller = env.current_scope();
            env.enter_scope(defined_in);
            let ghost params = exprs_model(&parameters);
            let ghost values = objects_model(&args);
            let mut i: usize = 0;
            assert(params.skip(0) =~= params);
            assert(values.skip(0) =~= values);
            while i < parameters.len() && i < args.len()
                invariant
                    env.wf(),
                    i <= parameters.len(),
                    i <= args.len(),
                    params == exprs_model(&parameters),
                    values == objects_model(&args),
                    env@.scopes.len() > old(env)@.scopes.len(),
                    bind_params(env@, params.skip(i as int), values.skip(i as int)) == bind_params(
                        old(env)@.enter(defined_in as nat),
                        params,
                        values,
                    ),
                decreases parameters.len() - i,
            {
                proof {
                    assert(params.skip(i as int)[0] == parameters[i as int]@);
                    assert(values.skip(i as int)[0] == args[i as int]@);
                    assert(params.skip(i as int).drop_first() =~= params.skip(i + 1));
                    assert(values.skip(i as int).drop_first() =~= values.skip(i + 1));
                }
                env.set(render_expression(&parameters[i]), clone_object(&args[i]));
                i += 1;
            }
            let evaluated = eval_stmt(&body, env, depth - 1);
            env.leave_scope(caller);
            match evaluated {
                Object::Return { value } => *value,
                other => other,
            }
        },
        _ => unreached(),
    }
}

/// Evaluates one statement, with calls nesting at most `MAX_CALL_DEPTH`
/// deep.
pub fn eval(stmt: Statement, env: &mut Environment) -> (r: Object)
    requires
        old(env).wf(),
    ensures
        final(env).wf(),
        (r@, final(env)@) == eval_stmt_spec(stmt@, old(env)@, MAX_CALL_DEPTH as nat),
{
    eval_stmt(&stmt, env, MAX_CALL_DEPTH)
}

/// Evaluates the statements of a program in order, with calls nesting at
/// most `MAX_CALL_DEPTH` deep. The result is the value of the last
/// statement, or what the first return signal carries, or the first error.
pub fn eval_statements(statements: Vec<Statement>, env: &mut Environment) -> (r: Object)
    requires
        old(env).wf(),
    ensures
        final(env).wf(),
        (r@, final(env)@) == eval_statements_spec(
            stmts_model(&statements),
            old(env)@,
            MAX_CALL_DEPTH as nat,
        ),
{
    eval_block(&statements, env, MAX_CALL_DEPTH)
}

/// Evaluates statements in order and returns the result of each, up to
/// and including the first that gives a return signal or an error.
pub fn eval_statements_traced(
    statements: &Vec<Statement>,
    env: &mut Environment,
    depth: usize,
) -> (trace: Vec<Object>)
    requires
        old(env).wf(),
    ensures
        final(env).wf(),
        (objects_model(&trace), final(env)@) == eval_trace_spec(
            stmts_model(statements),
            Seq::empty(),
            old(env)@,
            depth as nat,
        ),
{
    let ghost all = stmts_model(statements);
    let mut trace: Vec<Object> = Vec::new();
    let mut i: usize = 0;
    assert(all.skip(0) =~= all);
    assert(objects_model(&trace) =~= Seq::empty());
    while i < statements.len()
        invariant
            env.wf(),
            i <= statements.len(),
            all == stmts_model(statements),
            eval_trace_spec(all, Seq::empty(), old(env)@, depth as nat) == eval_trace_spec(
                all.skip(i as int),
                objects_model(&trace),
                env@,
                depth as nat,
            ),
        decreases statements.len() - i,
    {
        proof {
            assert(all.skip(i as int)[0] == statements[i as int]@);
            assert(all.skip(i as int).drop_first() =~= all.skip(i + 1));
        }
        let result = eval_stmt(&statements[i], env, depth);
        let halts = match &result {
            Object::Return { .. } => true,
            Object::Error { .. } => true,
            _ => false,
        };
        let ghost before = objects_model(&trace);
        trace.push(result);
        assert(objects_model(&trace) =~= before.push(result@));
        if halts {
            return trace;
        }
        i += 1;
    }
    trace
}

} // verus!
