use d_lang::ast::{Expression, Statement};
use d_lang::environment::Environment;
use d_lang::evaluator::{
    apply_function, eval, eval_bang_operator_expr, eval_bool_infix_expr, eval_infix_expr,
    eval_int_infix_expr, eval_minus_operator_expr, eval_prefix_expr, eval_statements,
    eval_statements_traced, MAX_CALL_DEPTH,
};
use d_lang::lexer::Lexer;
use d_lang::object::Object;
use d_lang::parser::Parser;
use d_lang::repl::lpe;

fn parse(input: &str) -> Vec<Statement> {
    let l = Lexer::new(input.chars().collect());
    let mut p = Parser::new(l);
    let program = p.parse_program();
    assert_eq!(p.errors, Vec::<String>::new(), "for {:?}", input);
    program.statements
}

fn run_in(input: &str, env: &mut Environment) -> Object {
    eval_statements(parse(input), env)
}

fn run(input: &str) -> Object {
    let mut env = Environment::new();
    run_in(input, &mut env)
}

fn integer(o: Object) -> i64 {
    match o {
        Object::Integer { value } => value,
        other => panic!("not an integer: {:?}", other),
    }
}

fn boolean(o: Object) -> bool {
    match o {
        Object::Boolean { value } => value,
        other => panic!("not a boolean: {:?}", other),
    }
}

fn error(o: Object) -> String {
    match o {
        Object::Error { message } => message,
        other => panic!("not an error: {:?}", other),
    }
}

fn is_null(o: &Object) -> bool {
    matches!(o, Object::Null {})
}

#[test]
fn functions_see_the_scope_they_were_defined_in() {
    assert_eq!(
        integer(run(
            "let x = 1; let f = fn() { x }; let g = fn() { let x = 2; f() }; g()"
        )),
        1
    );
    assert_eq!(
        integer(run(
            "let make = fn(a) { fn(b) { a + b } }; let add_two = make(2); add_two(3)"
        )),
        5
    );
    assert_eq!(
        integer(run(
            "let make = fn(a) { fn(b) { a + b } }; let p = make(10); let q = make(20); p(1) + q(1)"
        )),
        32
    );
}

#[test]
fn functions_see_later_bindings_of_their_defining_scope() {
    assert_eq!(integer(run("let f = fn() { y }; let y = 7; f()")), 7);
}

#[test]
fn functions_can_call_themselves() {
    assert_eq!(
        integer(run(
            "let fact = fn(n) { if (n < 1) { 1 } else { n * fact(n - 1) } }; fact(5)"
        )),
        120
    );
    assert_eq!(
        integer(run(
            "let fib = fn(n) { if (n < 2) { return n; } fib(n - 1) + fib(n - 2) }; fib(12)"
        )),
        144
    );
}

#[test]
fn parameters_do_not_leak_into_the_caller() {
    assert_eq!(
        error(run("let f = fn(a) { a }; f(1); a")),
        "identifier not found: a"
    );
    assert_eq!(integer(run("let a = 1; let f = fn(a) { a }; f(2); a")), 1);
    assert_eq!(
        integer(run("let a = 1; let f = fn() { let a = 2; a }; f() + a")),
        3
    );
}

#[test]
fn excess_arguments_are_ignored_and_missing_ones_stay_unbound() {
    assert_eq!(integer(run("let f = fn(a) { a }; f(1, 2, 3)")), 1);
    assert_eq!(
        error(run("let f = fn(a, b) { a + b }; f(1)")),
        "identifier not found: b"
    );
    assert_eq!(integer(run("let b = 10; let f = fn(a, b) { a + b }; f(1)")), 11);
}

#[test]
fn unbounded_recursion_ends_in_an_error() {
    assert_eq!(
        error(run("let f = fn(x) { f(x + 1) }; f(1)")),
        "call depth exceeded"
    );
    assert_eq!(
        error(run("let t = fn(f) { f(f) }; t(t)")),
        "call depth exceeded"
    );
    // Exactly as deep as allowed works, one deeper does not.
    let count = "let count = fn(n) { if (n < 1) { 0 } else { 1 + count(n - 1) } }; ";
    let deepest = MAX_CALL_DEPTH as i64 - 1;
    assert_eq!(integer(run(&format!("{} count({})", count, deepest))), deepest);
    assert_eq!(
        error(run(&format!("{} count({})", count, deepest + 1))),
        "call depth exceeded"
    );
}

#[test]
fn calling_what_is_no_function_is_an_error() {
    assert_eq!(error(run("5(3)")), "not a function: INTEGER");
    assert_eq!(error(run("let x = true; x()")), "not a function: BOOLEAN");
    assert_eq!(error(run("(if (false) { 1 })(2)")), "not a function: NULL");
}

#[test]
fn errors_in_callee_and_arguments_propagate() {
    assert_eq!(error(run("nope(1)")), "identifier not found: nope");
    assert_eq!(
        error(run("let f = fn(a, b) { a }; f(1, nope)")),
        "identifier not found: nope"
    );
    assert_eq!(
        error(run("let f = fn(a, b) { a }; f(nope, other)")),
        "identifier not found: nope"
    );
    assert_eq!(
        error(run("let f = fn(a) { a + true }; f(1) + 1")),
        "type mismatch: INTEGER + BOOLEAN"
    );
}

#[test]
fn an_error_stops_the_sequence() {
    let mut env = Environment::new();
    assert_eq!(
        error(run_in("let a = 1; false + true; let b = 2;", &mut env)),
        "unknown operator: BOOLEAN + BOOLEAN"
    );
    assert_eq!(integer(env.get(String::from("a")).unwrap().clone()), 1);
    assert!(env.get(String::from("b")).is_none());

    let mut env = Environment::new();
    assert_eq!(
        error(run_in("let a = nope; let b = 2;", &mut env)),
        "identifier not found: nope"
    );
    assert!(env.get(String::from("a")).is_none());
    assert!(env.get(String::from("b")).is_none());
}

#[test]
fn a_return_stops_the_sequence() {
    let mut env = Environment::new();
    assert_eq!(integer(run_in("let a = 1; return a + 1; let b = 2;", &mut env)), 2);
    assert!(env.get(String::from("b")).is_none());
    assert_eq!(
        integer(run(
            "let f = fn(x) { if (x > 0) { if (x > 1) { return 2; } return 1; } return 0; }; f(5) * 100 + f(1) * 10 + f(0)"
        )),
        210
    );
}

#[test]
fn the_empty_program_is_null() {
    assert!(is_null(&run("")));
    assert!(is_null(&run("fn() { }()")));
}

#[test]
fn conditions_are_true_unless_false_or_null() {
    assert_eq!(integer(run("if (0) { 1 } else { 2 }")), 1);
    assert_eq!(integer(run("if (fn() { }) { 1 } else { 2 }")), 1);
    assert_eq!(integer(run("if (if (false) { 1 }) { 1 } else { 2 }")), 2);
    assert_eq!(error(run("if (nope) { 1 } else { 2 }")), "identifier not found: nope");
}

#[test]
fn bang_is_false_for_everything_but_false() {
    assert!(!boolean(run("!0")));
    assert!(!boolean(run("!(if (false) { 1 })")));
    assert!(!boolean(run("!fn() { }")));
    assert!(boolean(run("!false")));
    assert!(boolean(eval_bang_operator_expr(Object::Boolean { value: false })));
    assert!(!boolean(eval_bang_operator_expr(Object::Null {})));
    assert!(!boolean(eval_bang_operator_expr(Object::Error {
        message: String::from("x")
    })));
}

#[test]
fn integer_arithmetic() {
    assert_eq!(integer(run("7 / 2")), 3);
    assert_eq!(integer(run("-7 / 2")), -3);
    assert_eq!(integer(run("7 / -2")), -3);
    assert_eq!(integer(run("-7 / -2")), 3);
    assert_eq!(integer(run("0 / 5")), 0);
    assert_eq!(integer(run("2147483647 + 1")), 2147483648);
    assert_eq!(integer(run("2147483647 * 2147483647")), 4611686014132420609);
    assert_eq!(error(run("1 / 0")), "division by zero");
    assert_eq!(error(run("1 / (1 - 1) + 5")), "division by zero");
}

#[test]
fn integer_arithmetic_wraps() {
    for (l, r) in [
        (i64::MAX, 1),
        (i64::MIN, -1),
        (i64::MAX, i64::MAX),
        (i64::MIN, i64::MIN),
        (i64::MIN, 1),
        (4611686018427387904, 2),
        (-5, 3),
        (0, i64::MIN),
    ] {
        assert_eq!(
            integer(eval_int_infix_expr(l, String::from("+"), r)),
            l.wrapping_add(r)
        );
        assert_eq!(
            integer(eval_int_infix_expr(l, String::from("-"), r)),
            l.wrapping_sub(r)
        );
        assert_eq!(
            integer(eval_int_infix_expr(l, String::from("*"), r)),
            l.wrapping_mul(r)
        );
        assert_eq!(
            integer(eval_int_infix_expr(l, String::from("/"), r)),
            l.wrapping_div(r)
        );
        assert_eq!(boolean(eval_int_infix_expr(l, String::from("<"), r)), l < r);
        assert_eq!(boolean(eval_int_infix_expr(l, String::from(">"), r)), l > r);
        assert_eq!(boolean(eval_int_infix_expr(l, String::from("=="), r)), l == r);
        assert_eq!(boolean(eval_int_infix_expr(l, String::from("!="), r)), l != r);
    }
    assert_eq!(
        integer(eval_minus_operator_expr(Object::Integer { value: i64::MIN })),
        i64::MIN
    );
    assert_eq!(integer(eval_minus_operator_expr(Object::Integer { value: 5 })), -5);
    assert_eq!(
        error(eval_int_infix_expr(i64::MIN, String::from("/"), 0)),
        "division by zero"
    );
}

#[test]
fn operators_that_a_type_does_not_have() {
    assert!(is_null(&eval_int_infix_expr(1, String::from("%"), 2)));
    assert!(is_null(&eval_int_infix_expr(1, String::from(""), 2)));
    assert!(is_null(&eval_bool_infix_expr(true, String::from("<"), false)));
    assert!(boolean(eval_bool_infix_expr(true, String::from("!="), false)));
    assert_eq!(
        error(eval_infix_expr(
            Object::Integer { value: 1 },
            String::from("%"),
            Object::Integer { value: 2 }
        )),
        "unknown operator: INTEGER % INTEGER"
    );
    assert_eq!(
        error(eval_infix_expr(
            Object::Boolean { value: true },
            String::from("<"),
            Object::Boolean { value: false }
        )),
        "unknown operator: BOOLEAN < BOOLEAN"
    );
    assert_eq!(error(run("true > false")), "unknown operator: BOOLEAN > BOOLEAN");
    assert_eq!(error(run("true + 1")), "type mismatch: BOOLEAN + INTEGER");
    assert_eq!(error(run("fn() { } + 1")), "type mismatch: FUNCTION + INTEGER");
    assert_eq!(
        error(run("(if (false) { 1 }) == false")),
        "type mismatch: NULL == BOOLEAN"
    );
    assert!(is_null(&run("(if (false) { 1 }) + (if (false) { 1 })")));
    assert!(is_null(&run("fn() { } == fn() { }")));
    assert_eq!(error(run("-fn() { }")), "unknown operator: -FUNCTION");
    assert_eq!(
        error(eval_prefix_expr(String::from("~"), Object::Integer { value: 1 })),
        "unknown operator: ~INTEGER"
    );
    assert_eq!(
        error(eval_prefix_expr(String::from("-"), Object::Null {})),
        "unknown operator: -NULL"
    );
}

#[test]
fn what_did_not_parse_does_not_evaluate() {
    let mut env = Environment::new();
    let stmt = Statement::ExpressionStatement {
        token: d_lang::token::Token {
            token_type: d_lang::token::TokenType::ILLEGAL,
            literal: String::from("\0"),
        },
        expression: Expression::NoExpression,
    };
    assert_eq!(error(eval(stmt, &mut env)), "no expression");
}

#[test]
fn let_gives_its_value_and_binds_it() {
    let mut env = Environment::new();
    let statements = parse("let a = 5 * 5;");
    assert_eq!(integer(eval(statements[0].clone(), &mut env)), 25);
    assert_eq!(integer(env.get(String::from("a")).unwrap().clone()), 25);
    // A block's value arrives inside a return signal; the binding is the value itself.
    let statements = parse("let b = if (true) { 7 };");
    match eval(statements[0].clone(), &mut env) {
        Object::Return { value } => assert_eq!(integer(*value), 7),
        other => panic!("not a return signal: {:?}", other),
    }
    assert_eq!(integer(env.get(String::from("b")).unwrap().clone()), 7);
}

#[test]
fn statements_give_return_signals() {
    let mut env = Environment::new();
    let statements = parse("return 3;");
    match eval(statements[0].clone(), &mut env) {
        Object::Return { value } => assert_eq!(integer(*value), 3),
        other => panic!("not a return signal: {:?}", other),
    }
}

#[test]
fn values_show_as_text() {
    assert_eq!(run("5").inspect(), "5");
    assert_eq!(run("-5").inspect(), "-5");
    assert_eq!(run("true").inspect(), "true");
    assert_eq!(run("1 > 2").inspect(), "false");
    assert_eq!(run("").inspect(), "null");
    assert_eq!(run("nope").inspect(), "ERROR: identifier not found: nope");
    assert_eq!(run("fn(a, b) { a + b }").inspect(), "fn(a, b) { (a + b) }");
    let wrapped = Object::Return {
        value: Box::new(Object::Integer { value: 9 }),
    };
    assert_eq!(wrapped.inspect(), "9");
    assert_eq!(wrapped.clone().inspect(), "9");
}

#[test]
fn values_name_their_type() {
    assert_eq!(run("5").get_type(), "INTEGER");
    assert_eq!(run("true").get_type(), "BOOLEAN");
    assert_eq!(run("").get_type(), "NULL");
    assert_eq!(run("nope").get_type(), "ERROR");
    assert_eq!(run("fn() { }").get_type(), "FUNCTION");
    let wrapped = Object::Return {
        value: Box::new(Object::Integer { value: 9 }),
    };
    assert_eq!(wrapped.get_type(), "RETURN");
    assert!(boolean(Object::get_bool_obj(true)));
    assert!(!boolean(Object::get_bool_obj(false)));
    assert!(is_null(&Object::get_null_object()));
}

#[test]
fn environments_bind_and_look_up() {
    let mut env = Environment::new();
    assert!(env.get(String::from("x")).is_none());
    env.set(String::from("x"), Object::Integer { value: 1 });
    env.set(String::from("y"), Object::Integer { value: 2 });
    assert_eq!(integer(env.get(String::from("x")).unwrap().clone()), 1);
    assert_eq!(integer(env.get(String::from("y")).unwrap().clone()), 2);
    env.set(String::from("x"), Object::Integer { value: 3 });
    assert_eq!(integer(env.get(String::from("x")).unwrap().clone()), 3);
    assert_eq!(integer(env.get(String::from("y")).unwrap().clone()), 2);
    assert!(env.get(String::from("")).is_none());

    let root = env.current_scope();
    env.enter_scope(root);
    let inner = env.current_scope();
    assert!(inner != root);
    assert_eq!(integer(env.get(String::from("x")).unwrap().clone()), 3);
    env.set(String::from("x"), Object::Integer { value: 4 });
    env.set(String::from("z"), Object::Integer { value: 5 });
    assert_eq!(integer(env.get(String::from("x")).unwrap().clone()), 4);
    env.leave_scope(root);
    assert_eq!(integer(env.get(String::from("x")).unwrap().clone()), 3);
    assert!(env.get(String::from("z")).is_none());
    // A scope whose parent does not exist stands alone.
    env.enter_scope(1000);
    assert!(env.get(String::from("x")).is_none());
    env.leave_scope(inner);
    assert_eq!(integer(env.get(String::from("z")).unwrap().clone()), 5);
}

#[test]
fn applying_a_function_value_directly() {
    let mut env = Environment::new();
    let f = run_in("let k = 100; fn(a, b) { a - b + k }", &mut env);
    let args = vec![Object::Integer { value: 5 }, Object::Integer { value: 3 }];
    assert_eq!(integer(apply_function(f.clone(), args, &mut env, 10)), 102);
    assert!(env.get(String::from("a")).is_none());
    let args = vec![Object::Integer { value: 5 }, Object::Integer { value: 3 }];
    assert_eq!(
        error(apply_function(f, args, &mut env, 0)),
        "call depth exceeded"
    );
}

#[test]
fn a_session_keeps_its_bindings() {
    let mut env = Environment::new();
    let first = lpe(String::from("let a = 5; let f = fn(x) { x * a };"), &mut env).unwrap();
    assert_eq!(first.len(), 2);
    let second = lpe(String::from("f(4); a"), &mut env).unwrap();
    assert_eq!(second.len(), 2);
    assert_eq!(integer(second[0].clone()), 20);
    assert_eq!(integer(second[1].clone()), 5);
}

#[test]
fn a_round_stops_at_diagnostics_or_at_the_first_signal() {
    let mut env = Environment::new();
    let failed = lpe(String::from("let a = 1; let = 2;"), &mut env).unwrap_err();
    assert_eq!(
        failed,
        vec![
            "expected token=IDENT, got ASSIGN",
            "no prefix parse function for ASSIGN"
        ]
    );
    assert!(env.get(String::from("a")).is_none());

    let trace = lpe(String::from("1; return 2; 3"), &mut env).unwrap();
    assert_eq!(trace.len(), 2);
    assert_eq!(integer(trace[0].clone()), 1);
    match &trace[1] {
        Object::Return { value } => assert_eq!(integer((**value).clone()), 2),
        other => panic!("not a return signal: {:?}", other),
    }
    let trace = lpe(String::from("1; nope; 3"), &mut env).unwrap();
    assert_eq!(trace.len(), 2);
    assert_eq!(error(trace[1].clone()), "identifier not found: nope");
    assert_eq!(lpe(String::from(""), &mut env).unwrap().len(), 0);

    let statements = parse("1; 2; 3");
    let trace = eval_statements_traced(&statements, &mut env, 5);
    assert_eq!(trace.len(), 3);
    assert_eq!(integer(trace[2].clone()), 3);
}
