use d_lang::ast::{Expression, Node, Statement};
use d_lang::lexer::Lexer;
use d_lang::parser::routines::{InfixRoutine, PrefixRoutine};
use d_lang::parser::precedence::Precedence;
use d_lang::parser::Parser;
use d_lang::token::TokenType;

fn parse(input: &str) -> (Vec<Statement>, Vec<String>) {
    let l = Lexer::new(input.chars().collect());
    let mut p = Parser::new(l);
    let program = p.parse_program();
    assert!(p.curr_token_is(TokenType::EOF));
    (program.statements, p.errors().clone())
}

fn diagnostics(input: &str) -> Vec<String> {
    parse(input).1
}

fn rendered(input: &str) -> Vec<String> {
    parse(input).0.iter().map(|s| s.to_string()).collect()
}

#[test]
fn a_source_text_parses_to_program_and_diagnostics() {
    let (program, diagnostics) = d_lang::parser::parse("let x = 1; x + 1;");
    assert_eq!(diagnostics, Vec::<String>::new());
    let texts: Vec<String> = program.statements.iter().map(|s| s.to_string()).collect();
    assert_eq!(texts, vec!["let x = 1;", "(x + 1)"]);

    let (program, diagnostics) = d_lang::parser::parse("let x 1; (2");
    assert_eq!(
        diagnostics,
        vec![
            "expected token=ASSIGN, got INT",
            "expected token=RPAREN, got EOF"
        ]
    );
    let texts: Vec<String> = program.statements.iter().map(|s| s.to_string()).collect();
    assert_eq!(texts, vec!["1", "\0"]);
}

#[test]
fn clean_input_leaves_no_diagnostics() {
    assert_eq!(diagnostics(""), Vec::<String>::new());
    assert_eq!(diagnostics("let x = 5; x + 1;"), Vec::<String>::new());
    assert_eq!(diagnostics("fn() { }"), Vec::<String>::new());
}

#[test]
fn let_needs_a_name_and_an_equals_sign() {
    assert_eq!(
        diagnostics("let = 5;")[0],
        "expected token=IDENT, got ASSIGN"
    );
    assert_eq!(diagnostics("let x 5;")[0], "expected token=ASSIGN, got INT");
    assert_eq!(diagnostics("let")[0], "expected token=IDENT, got EOF");
    assert_eq!(diagnostics("let 5 = 5;")[0], "expected token=IDENT, got INT");
}

#[test]
fn tokens_that_start_no_expression() {
    assert_eq!(diagnostics(")"), vec!["no prefix parse function for RPAREN"]);
    assert_eq!(diagnostics("}"), vec!["no prefix parse function for RBRACE"]);
    assert_eq!(diagnostics("="), vec!["no prefix parse function for ASSIGN"]);
    assert_eq!(diagnostics("@"), vec!["no prefix parse function for ILLEGAL"]);
    assert_eq!(diagnostics("1 +"), vec!["no prefix parse function for EOF"]);
    assert_eq!(diagnostics("!"), vec!["no prefix parse function for EOF"]);
    assert_eq!(diagnostics("1 + * 2")[0], "no prefix parse function for ASTERISK");
}

#[test]
fn missing_delimiters_are_diagnosed() {
    assert_eq!(diagnostics("(1 + 2"), vec!["expected token=RPAREN, got EOF"]);
    assert_eq!(diagnostics("if x 1")[0], "expected token=LBRACE, got INT");
    assert_eq!(
        diagnostics("if (x) { 1 } else 2")[0],
        "expected token=LBRACE, got INT"
    );
    assert_eq!(diagnostics("fn x")[0], "expected token=LPAREN, got IDENT");
    assert_eq!(diagnostics("fn(1) { }")[0], "expected token=IDENT, got INT");
    assert_eq!(diagnostics("fn(x, ) { }")[0], "expected token=IDENT, got RPAREN");
    assert_eq!(diagnostics("fn(x { }")[0], "expected token=RPAREN, got LBRACE");
    assert_eq!(diagnostics("fn(x) 1")[0], "expected token=LBRACE, got INT");
    assert_eq!(diagnostics("add(1, 2")[0], "expected token=RPAREN, got EOF");
    assert_eq!(diagnostics("add(1 2)")[0], "expected token=RPAREN, got INT");
}

#[test]
fn integer_literals_must_fit_32_bits() {
    assert_eq!(diagnostics("2147483647;"), Vec::<String>::new());
    assert_eq!(
        diagnostics("2147483648;"),
        vec!["could not parse 2147483648 as integer"]
    );
    assert_eq!(
        diagnostics("let x = 99999999999;"),
        vec!["could not parse 99999999999 as integer"]
    );
    let (statements, _) = parse("2147483648 + 1;");
    assert_eq!(statements.len(), 1);
    assert_eq!(statements[0].to_string(), "(\0 + 1)");
}

#[test]
fn a_failed_expression_leaves_the_sentinel() {
    let (statements, errors) = parse("(1 + 2");
    assert_eq!(errors.len(), 1);
    assert_eq!(statements.len(), 1);
    match &statements[0] {
        Statement::ExpressionStatement { expression, .. } => {
            assert!(matches!(expression, Expression::NoExpression));
        }
        _ => panic!("not an expression statement"),
    }
}

#[test]
fn parsing_goes_on_after_a_diagnostic() {
    let (statements, errors) = parse("let = 5; let y = 10;");
    assert_eq!(
        errors,
        vec![
            "expected token=IDENT, got ASSIGN",
            "no prefix parse function for ASSIGN"
        ]
    );
    let texts: Vec<String> = statements.iter().map(|s| s.to_string()).collect();
    assert_eq!(texts, vec!["\0", "5", "let y = 10;"]);

    let (statements, errors) = parse("let x 5; x;");
    assert_eq!(errors, vec!["expected token=ASSIGN, got INT"]);
    let texts: Vec<String> = statements.iter().map(|s| s.to_string()).collect();
    assert_eq!(texts, vec!["5", "x"]);
}

#[test]
fn diagnostics_accumulate_in_order() {
    let l = Lexer::new(") let 1; (2".chars().collect());
    let mut p = Parser::new(l);
    assert_eq!(p.errors.len(), 0);
    let _ = p.parse_program();
    assert_eq!(
        p.errors,
        vec![
            "no prefix parse function for RPAREN",
            "expected token=IDENT, got INT",
            "expected token=RPAREN, got EOF"
        ]
    );
    assert_eq!(p.errors(), &p.errors);
}

#[test]
fn any_input_parses_to_the_end() {
    let inputs = vec![
        "", " ", "(", ")", "((((((", "))))))", "{", "}", "}}}}", "{{{{", "if", "if (", "if (x)",
        "if (x) {", "if (x) { 1 } else", "if (x) { 1 } else if", "fn", "fn(", "fn(x", "fn(x,",
        "fn(x)", "fn(x) {", "let", "let x", "let x =", "return", "return return", "1 +", "1 + +",
        "!", "-", "!-!-", "a(", "a(1", "a(1,", "a(,)", "a b c", ";;;;", "= = =", "@#$", "x\0y",
        "1 2 3", "let let let", "else", "else { }", "true false", ", , ,", "fn(fn(fn(",
    ];
    for input in inputs.iter() {
        let _ = parse(input);
    }
}

#[test]
fn operators_nest_by_precedence() {
    let cases = vec![
        ("a + b * c", "(a + (b * c))"),
        ("a * b + c", "((a * b) + c)"),
        ("a - b - c", "((a - b) - c)"),
        ("a / b / c", "((a / b) / c)"),
        ("a + b - c", "((a + b) - c)"),
        ("a * b / c", "((a * b) / c)"),
        ("-a * b", "((-a) * b)"),
        ("!-a", "(!(-a))"),
        ("a + b * c + d / e - f", "(((a + (b * c)) + (d / e)) - f)"),
        ("5 > 4 == 3 < 4", "((5 > 4) == (3 < 4))"),
        ("5 < 4 != 3 > 4", "((5 < 4) != (3 > 4))"),
        ("3 + 4 * 5 == 3 * 1 + 4 * 5", "((3 + (4 * 5)) == ((3 * 1) + (4 * 5)))"),
        ("a == b == c", "((a == b) == c)"),
        ("a < b > c", "((a < b) > c)"),
        ("a + add(b * c) + d", "((a + add((b * c))) + d)"),
        (
            "add(a, b, 1, 2 * 3, 4 + 5, add(6, 7 * 8))",
            "add(a, b, 1, (2 * 3), (4 + 5), add(6, (7 * 8)))",
        ),
        ("add(a + b + c * d / f + g)", "add((((a + b) + ((c * d) / f)) + g))"),
        ("-add(1)", "(-add(1))"),
        ("!f(x)(y)", "(!f(x)(y))"),
        ("(a + b) * (c + d)", "((a + b) * (c + d))"),
    ];
    for (input, expected) in cases.iter() {
        assert_eq!(rendered(input), vec![expected.to_string()], "for {:?}", input);
    }
}

#[test]
fn a_semicolon_ends_an_expression() {
    assert_eq!(rendered("a; + b"), vec!["a", "\0", "b"]);
    assert_eq!(rendered("3 + 4; -5 * 5"), vec!["(3 + 4)", "((-5) * 5)"]);
}

#[test]
fn routine_tables() {
    let p = Parser::new(Lexer::new(vec![]));
    let prefix = vec![
        (TokenType::IDENT, PrefixRoutine::Identifier),
        (TokenType::INT, PrefixRoutine::IntegerLiteral),
        (TokenType::BANG, PrefixRoutine::PrefixExpression),
        (TokenType::MINUS, PrefixRoutine::PrefixExpression),
        (TokenType::TRUE, PrefixRoutine::Boolean),
        (TokenType::FALSE, PrefixRoutine::Boolean),
        (TokenType::LPAREN, PrefixRoutine::GroupedExpression),
        (TokenType::IF, PrefixRoutine::IfExpression),
        (TokenType::FUNCTION, PrefixRoutine::FuncExpression),
    ];
    for (kind, routine) in prefix.iter() {
        assert_eq!(p.prefix_routine(*kind), Some(*routine));
    }
    for kind in [
        TokenType::ILLEGAL,
        TokenType::EOF,
        TokenType::ASSIGN,
        TokenType::PLUS,
        TokenType::RPAREN,
        TokenType::LBRACE,
        TokenType::RBRACE,
        TokenType::SEMICOLON,
        TokenType::COMMA,
        TokenType::LET,
        TokenType::RETURN,
        TokenType::ELSE,
    ] {
        assert_eq!(p.prefix_routine(kind), None);
    }
    for kind in [
        TokenType::PLUS,
        TokenType::MINUS,
        TokenType::SLASH,
        TokenType::ASTERISK,
        TokenType::EQ,
        TokenType::NOTEQ,
        TokenType::LT,
        TokenType::GT,
    ] {
        assert_eq!(p.infix_routine(kind), Some(InfixRoutine::InfixExpression));
    }
    assert_eq!(
        p.infix_routine(TokenType::LPAREN),
        Some(InfixRoutine::CallExpression)
    );
    for kind in [
        TokenType::BANG,
        TokenType::ASSIGN,
        TokenType::IDENT,
        TokenType::INT,
        TokenType::RPAREN,
        TokenType::SEMICOLON,
        TokenType::EOF,
    ] {
        assert_eq!(p.infix_routine(kind), None);
    }
}

#[test]
fn diagnostics_are_handed_out_for_a_caller_that_stops() {
    let mut p = Parser::new(Lexer::new("1 + 2".chars().collect()));
    let _ = p.parse_program();
    assert_eq!(p.check_parse_errors(), Ok(()));
    let mut p = Parser::new(Lexer::new("1 + ; )".chars().collect()));
    let _ = p.parse_program();
    assert_eq!(
        p.check_parse_errors(),
        Err(vec![
            String::from("no prefix parse function for SEMICOLON"),
            String::from("no prefix parse function for RPAREN")
        ])
    );
}

#[test]
fn precedence_levels() {
    assert_eq!(Precedence::lookup_precedence(TokenType::EQ), Precedence::EQUALS);
    assert_eq!(Precedence::lookup_precedence(TokenType::NOTEQ), Precedence::EQUALS);
    assert_eq!(Precedence::lookup_precedence(TokenType::LT), Precedence::LESSGREATER);
    assert_eq!(Precedence::lookup_precedence(TokenType::GT), Precedence::LESSGREATER);
    assert_eq!(Precedence::lookup_precedence(TokenType::PLUS), Precedence::SUM);
    assert_eq!(Precedence::lookup_precedence(TokenType::MINUS), Precedence::SUM);
    assert_eq!(Precedence::lookup_precedence(TokenType::SLASH), Precedence::PRODUCT);
    assert_eq!(Precedence::lookup_precedence(TokenType::ASTERISK), Precedence::PRODUCT);
    assert_eq!(Precedence::lookup_precedence(TokenType::LPAREN), Precedence::CALL);
    assert_eq!(Precedence::lookup_precedence(TokenType::SEMICOLON), Precedence::LOWEST);
    assert_eq!(Precedence::lookup_precedence(TokenType::IDENT), Precedence::LOWEST);
    assert_eq!(Precedence::lookup_precedence(TokenType::BANG), Precedence::LOWEST);
    let levels = vec![
        Precedence::BLANK,
        Precedence::LOWEST,
        Precedence::EQUALS,
        Precedence::LESSGREATER,
        Precedence::SUM,
        Precedence::PRODUCT,
        Precedence::PREFIX,
        Precedence::CALL,
    ];
    for (i, level) in levels.iter().enumerate() {
        assert_eq!(level.rank() as usize, i);
    }
    for pair in levels.windows(2) {
        assert!(pair[0] < pair[1]);
    }
}

#[test]
fn routines_can_be_driven_by_hand() {
    let l = Lexer::new("foo 12 true -x; (y); if (a) { b } fn(c) { d }".chars().collect());
    let mut p = Parser::new(l);
    assert!(p.curr_token_is(TokenType::IDENT));
    assert!(p.peek_token_is(TokenType::INT));
    assert_eq!(p.parse_identifier().to_string(), "foo");
    assert!(!p.expect_peek(TokenType::TRUE));
    assert!(p.expect_peek(TokenType::INT));
    assert_eq!(p.parse_integer_literal().to_string(), "12");
    assert_eq!(p.peek_precedence(), Precedence::LOWEST);
    p.next_token();
    assert_eq!(p.parse_boolean().to_string(), "true");
    p.next_token();
    assert_eq!(p.curr_precedence(), Precedence::SUM);
    assert_eq!(p.parse_prefix_expression().to_string(), "(-x)");
    assert!(p.expect_peek(TokenType::SEMICOLON));
    p.next_token();
    assert_eq!(p.parse_grouped_expression().to_string(), "y");
    assert!(p.curr_token_is(TokenType::RPAREN));
    assert!(p.expect_peek(TokenType::SEMICOLON));
    p.next_token();
    assert_eq!(p.parse_if_expression().to_string(), "if a { b }");
    p.next_token();
    assert_eq!(p.parse_func_expression().to_string(), "fn(c) { d }");
    assert_eq!(p.errors.len(), 0);
    p.peek_error(TokenType::COMMA);
    p.no_prefix_parse_fn_error(TokenType::COLON);
    assert_eq!(
        p.errors,
        vec![
            "expected token=COMMA, got EOF",
            "no prefix parse function for COLON"
        ]
    );
}
