use d_lang::ast::{render_return, Expression, Node, Statement};
use d_lang::lexer::Lexer;
use d_lang::parser::Parser;
use d_lang::token::{Token, TokenType};

fn parse(input: &str) -> (Vec<Statement>, Vec<String>) {
    let l = Lexer::new(input.chars().collect());
    let mut p = Parser::new(l);
    let program = p.parse_program();
    (program.statements, p.errors.clone())
}

fn render_all(input: &str) -> Vec<String> {
    let (statements, errors) = parse(input);
    assert_eq!(errors, Vec::<String>::new(), "for {:?}", input);
    statements.iter().map(|s| s.to_string()).collect()
}

#[test]
fn return_statements_quote_their_value() {
    assert_eq!(render_all("return 5;"), vec!["return \"5\";"]);
    assert_eq!(render_all("return a + b;"), vec!["return \"(a + b)\";"]);
    assert_eq!(render_return("return", "\"x\""), "return \"x\";");
    // The sentinel renders as a NUL character, which the quoting escapes.
    let stmt = Statement::new(TokenType::RETURN);
    assert_eq!(stmt.to_string(), "return \"\\0\";");
}

#[test]
fn let_statements_render_name_and_value() {
    assert_eq!(render_all("let x = 5;"), vec!["let x = 5;"]);
    assert_eq!(
        render_all("let total = a + b * 2;"),
        vec!["let total = (a + (b * 2));"]
    );
    assert_eq!(
        render_all("let f = fn(x) { x; };"),
        vec!["let f = fn(x) { x };"]
    );
}

#[test]
fn blocks_functions_and_calls_render() {
    assert_eq!(render_all("fn() { 1 }"), vec!["fn() { 1 }"]);
    assert_eq!(render_all("fn(a) { a; a }"), vec!["fn(a) { aa }"]);
    assert_eq!(render_all("f()"), vec!["f()"]);
    assert_eq!(render_all("f(a)(b, c)"), vec!["f(a)(b, c)"]);
    assert_eq!(render_all("if (a) { b }"), vec!["if a { b }"]);
    assert_eq!(
        render_all("if (a) { } else { c }"),
        vec!["if a {  } else { c }"]
    );
    assert_eq!(render_all("true; false; -5; !x"), vec!["true", "false", "(-5)", "(!x)"]);
}

#[test]
fn the_sentinel_renders_as_nul() {
    assert_eq!(Expression::NoExpression.to_string(), "\0");
    assert_eq!(Expression::NoExpression.token_literal(), "\0");
}

#[test]
fn token_literals_of_nodes() {
    let (statements, _) = parse("let x = 5; return 1; x + 2; 7");
    assert_eq!(statements[0].token_literal(), "let");
    assert_eq!(statements[1].token_literal(), "return");
    assert_eq!(statements[2].token_literal(), "\0");
    match &statements[2] {
        Statement::ExpressionStatement { token, expression } => {
            assert_eq!(expression.token_literal(), "+");
            assert_eq!(token.token_type, TokenType::PLUS);
            assert_eq!(token.literal, "+");
        }
        _ => panic!("not an expression statement"),
    }
    match &statements[3] {
        Statement::ExpressionStatement { token, expression } => {
            assert_eq!(expression.token_literal(), "7");
            assert_eq!(token.token_type, TokenType::INT);
            assert_eq!(token.literal, "7");
            match expression {
                Expression::IntegerLiteral { value, .. } => assert_eq!(*value, 7),
                _ => panic!("not an integer literal"),
            }
        }
        _ => panic!("not an expression statement"),
    }
}

#[test]
fn new_statements_by_kind() {
    match Statement::new(TokenType::LET) {
        Statement::LetStatement { token, name, value } => {
            assert_eq!(token.token_type, TokenType::LET);
            assert_eq!(token.literal, "let");
            assert_eq!(name.to_string(), "let");
            assert!(matches!(value, Expression::NoExpression));
        }
        _ => panic!("not a let"),
    }
    match Statement::new(TokenType::RETURN) {
        Statement::ReturnStatement { token, value } => {
            assert_eq!(token.token_type, TokenType::RETURN);
            assert_eq!(token.literal, "return");
            assert!(matches!(value, Expression::NoExpression));
        }
        _ => panic!("not a return"),
    }
    match Statement::new(TokenType::BLOCK) {
        Statement::BlockStatement { token, statements } => {
            assert_eq!(token.token_type, TokenType::BLOCK);
            assert_eq!(token.literal, "block");
            assert_eq!(statements.len(), 0);
        }
        _ => panic!("not a block"),
    }
    match Statement::new(TokenType::PLUS) {
        Statement::ExpressionStatement { token, expression } => {
            assert_eq!(token.token_type, TokenType::PLUS);
            assert_eq!(token.literal, "\0");
            assert!(matches!(expression, Expression::NoExpression));
        }
        _ => panic!("not an expression statement"),
    }
}

fn ident(name: &str) -> Expression {
    Expression::Identifier {
        token: Token { token_type: TokenType::IDENT, literal: String::from(name) },
        value: String::from(name),
    }
}

#[test]
fn setters_change_only_the_statement_they_are_for() {
    let mut stmt = Statement::new(TokenType::LET);
    stmt.set_let_name(ident("x"));
    stmt.set_value(ident("y"));
    stmt.set_expression(ident("z"));
    stmt.set_expression_literal();
    stmt.add_block_stmt(Statement::new(TokenType::RETURN));
    stmt.set_block_token(Token { token_type: TokenType::LBRACE, literal: String::from("{") });
    assert_eq!(stmt.to_string(), "let x = y;");

    let mut stmt = Statement::new(TokenType::RETURN);
    stmt.set_let_name(ident("x"));
    stmt.set_value(ident("y"));
    assert_eq!(stmt.to_string(), "return \"y\";");

    let mut stmt = Statement::new(TokenType::IDENT);
    stmt.set_value(ident("y"));
    stmt.set_expression(ident("z"));
    stmt.set_expression_literal();
    match &stmt {
        Statement::ExpressionStatement { token, .. } => {
            assert_eq!(token.token_type, TokenType::IDENT);
            assert_eq!(token.literal, "z");
        }
        _ => panic!("not an expression statement"),
    }
    assert_eq!(stmt.to_string(), "z");

    let mut stmt = Statement::new(TokenType::BLOCK);
    stmt.set_block_token(Token { token_type: TokenType::LBRACE, literal: String::from("{") });
    stmt.add_block_stmt(Statement::new(TokenType::IDENT));
    let mut inner = Statement::new(TokenType::IDENT);
    inner.set_expression(ident("a"));
    stmt.add_block_stmt(inner);
    stmt.set_value(ident("y"));
    match &stmt {
        Statement::BlockStatement { token, statements } => {
            assert_eq!(token.token_type, TokenType::LBRACE);
            assert_eq!(statements.len(), 2);
        }
        _ => panic!("not a block"),
    }
    assert_eq!(stmt.to_string(), "{ \0a }");
}

#[test]
fn copies_render_like_their_source() {
    let (statements, _) = parse(
        "let f = fn(a, b) { if (a < b) { return a; } else if (b < a) { b } else { f(a, -b) } };",
    );
    let copy = statements[0].clone();
    assert_eq!(copy.to_string(), statements[0].to_string());
    assert_eq!(
        copy.to_string(),
        "let f = fn(a, b) { if (a < b) { return \"a\"; } else if (b < a) { b } else { f(a, (-b)) } };"
    );
}
