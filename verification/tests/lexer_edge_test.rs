use d_lang::lexer::Lexer;
use d_lang::token::{lookup_chars, Token, TokenType};

fn lex_all(input: &str) -> Vec<Token> {
    let mut l = Lexer::new(input.chars().collect());
    let mut tokens = vec![];
    // One token per character at most, and one end marker.
    for _ in 0..input.chars().count() + 1 {
        let tok = l.next_token();
        let done = tok.token_type == TokenType::EOF && tok.literal == "\0";
        tokens.push(tok);
        if done && tokens.len() > input.chars().count() {
            break;
        }
    }
    tokens
}

fn kinds(input: &str, count: usize) -> Vec<(TokenType, String)> {
    let mut l = Lexer::new(input.chars().collect());
    let mut out = vec![];
    for _ in 0..count {
        let tok = l.next_token();
        out.push((tok.token_type, tok.literal));
    }
    out
}

#[test]
fn end_marker_repeats_forever() {
    let mut l = Lexer::new("x".chars().collect());
    let first = l.next_token();
    assert_eq!(first.token_type, TokenType::IDENT);
    for _ in 0..50 {
        let tok = l.next_token();
        assert_eq!(tok.token_type, TokenType::EOF);
        assert_eq!(tok.literal, "\0");
    }
}

#[test]
fn empty_input_is_end_marker() {
    let mut l = Lexer::new(vec![]);
    let tok = l.next_token();
    assert_eq!(tok.token_type, TokenType::EOF);
    assert_eq!(tok.literal, "\0");
    let mut l = Lexer::new(" \t\r\n ".chars().collect());
    let tok = l.next_token();
    assert_eq!(tok.token_type, TokenType::EOF);
    assert_eq!(tok.literal, "\0");
}

#[test]
fn unknown_characters_are_illegal_tokens() {
    let got = kinds("a @ # 1", 5);
    assert_eq!(
        got,
        vec![
            (TokenType::IDENT, String::from("a")),
            (TokenType::ILLEGAL, String::from("@")),
            (TokenType::ILLEGAL, String::from("#")),
            (TokenType::INT, String::from("1")),
            (TokenType::EOF, String::from("\0")),
        ]
    );
    let got = kinds("\u{e9}[", 3);
    assert_eq!(
        got,
        vec![
            (TokenType::ILLEGAL, String::from("\u{e9}")),
            (TokenType::ILLEGAL, String::from("[")),
            (TokenType::EOF, String::from("\0")),
        ]
    );
}

#[test]
fn two_character_operators_need_the_second_character() {
    let got = kinds("= == ! != =! !== ===", 11);
    assert_eq!(
        got,
        vec![
            (TokenType::ASSIGN, String::from("=")),
            (TokenType::EQ, String::from("==")),
            (TokenType::BANG, String::from("!")),
            (TokenType::NOTEQ, String::from("!=")),
            (TokenType::ASSIGN, String::from("=")),
            (TokenType::BANG, String::from("!")),
            (TokenType::NOTEQ, String::from("!=")),
            (TokenType::ASSIGN, String::from("=")),
            (TokenType::EQ, String::from("==")),
            (TokenType::ASSIGN, String::from("=")),
            (TokenType::EOF, String::from("\0")),
        ]
    );
}

#[test]
fn words_and_numbers_are_maximal_runs() {
    let got = kinds("lettuce let fnx fn_ _x 12ab 007 iff", 10);
    assert_eq!(
        got,
        vec![
            (TokenType::IDENT, String::from("lettuce")),
            (TokenType::LET, String::from("let")),
            (TokenType::IDENT, String::from("fnx")),
            (TokenType::IDENT, String::from("fn_")),
            (TokenType::IDENT, String::from("_x")),
            (TokenType::INT, String::from("12")),
            (TokenType::IDENT, String::from("ab")),
            (TokenType::INT, String::from("007")),
            (TokenType::IDENT, String::from("iff")),
            (TokenType::EOF, String::from("\0")),
        ]
    );
}

#[test]
fn nul_inside_the_input_gives_an_end_marker_and_lexing_goes_on() {
    let got = kinds("a\0b", 4);
    assert_eq!(
        got,
        vec![
            (TokenType::IDENT, String::from("a")),
            (TokenType::EOF, String::from("\0")),
            (TokenType::IDENT, String::from("b")),
            (TokenType::EOF, String::from("\0")),
        ]
    );
}

#[test]
fn keyword_table() {
    assert_eq!(Token::lookup_ident("fn"), TokenType::FUNCTION);
    assert_eq!(Token::lookup_ident("let"), TokenType::LET);
    assert_eq!(Token::lookup_ident("true"), TokenType::TRUE);
    assert_eq!(Token::lookup_ident("false"), TokenType::FALSE);
    assert_eq!(Token::lookup_ident("if"), TokenType::IF);
    assert_eq!(Token::lookup_ident("else"), TokenType::ELSE);
    assert_eq!(Token::lookup_ident("return"), TokenType::RETURN);
    assert_eq!(Token::lookup_ident("foobar"), TokenType::IDENT);
    assert_eq!(Token::lookup_ident("Let"), TokenType::IDENT);
    assert_eq!(Token::lookup_ident(""), TokenType::IDENT);
    assert_eq!(Token::lookup_ident("returns"), TokenType::IDENT);
    assert_eq!(lookup_chars(&"else".chars().collect()), TokenType::ELSE);
    assert_eq!(lookup_chars(&"els".chars().collect()), TokenType::IDENT);
}

#[test]
fn kind_names() {
    assert_eq!(TokenType::ILLEGAL.name(), "ILLEGAL");
    assert_eq!(TokenType::EOF.name(), "EOF");
    assert_eq!(TokenType::NOTEQ.name(), "NOTEQ");
    assert_eq!(TokenType::FUNCTION.name(), "FUNCTION");
    assert_eq!(TokenType::BLOCK.name(), "BLOCK");
}

#[test]
fn tokens_are_equal_by_kind_and_literal() {
    let a = Token { token_type: TokenType::IDENT, literal: String::from("x") };
    let b = Token { token_type: TokenType::IDENT, literal: String::from("x") };
    let c = Token { token_type: TokenType::IDENT, literal: String::from("y") };
    let d = Token { token_type: TokenType::INT, literal: String::from("x") };
    assert!(a == b);
    assert!(a != c);
    assert!(a != d);
    assert!(a.clone() == a);
}

#[test]
fn lexing_a_literal_again_gives_the_same_token() {
    let inputs = vec![
        "let five = 5; let ten = 10;",
        "let add = fn(x, y) { x + y; }; add(five, ten);",
        "!-/*5; 5 < 10 > 5; 10 == 10; 10 != 9;",
        "if (5 < 10) { return true; } else { return false; }",
        "a @ # $ [ ] : \" ' ~ 12ab _ __x",
        "x\0y",
        "",
        "==!=!===",
    ];
    for input in inputs.iter() {
        for tok in lex_all(input).iter() {
            let mut again = Lexer::new(tok.literal.chars().collect());
            let second = again.next_token();
            assert!(
                second == *tok,
                "{:?} lexed again gives {:?}",
                tok,
                second
            );
        }
    }
}

#[test]
fn character_classes() {
    for ch in ['a', 'z', 'A', 'Z', '_', 'm'] {
        assert!(Lexer::is_letter(ch));
        assert!(!Lexer::is_digit(ch));
    }
    for ch in ['0', '9', '5'] {
        assert!(Lexer::is_digit(ch));
        assert!(!Lexer::is_letter(ch));
    }
    for ch in ['`', '{', '@', '[', '/', ':', ' ', '\0', '\u{e9}', '\u{663}'] {
        assert!(!Lexer::is_letter(ch));
        assert!(!Lexer::is_digit(ch));
    }
}
