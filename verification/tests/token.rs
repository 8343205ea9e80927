use d_lang::lexer::Lexer;
use d_lang::token::{Token, TokenType};

#[test]
fn token_test_next_token() {
    let input = "=+(){},;".chars().collect();

    let tests = vec![
        Token {
            token_type: TokenType::ASSIGN,
            literal: String::from('='),
        },
        Token {
            token_type: TokenType::PLUS,
            literal: String::from('+'),
        },
        Token {
            token_type: TokenType::LPAREN,
            literal: String::from('('),
        },
        Token {
            token_type: TokenType::RPAREN,
            literal: String::from(')'),
        },
        Token {
            token_type: TokenType::LBRACE,
            literal: String::from('{'),
        },
        Token {
            token_type: TokenType::RBRACE,
            literal: String::from('}'),
        },
        Token {
            token_type: TokenType::COMMA,
            literal: String::from(','),
        },
        Token {
            token_type: TokenType::SEMICOLON,
            literal: String::from(';'),
        },
        Token {
            token_type: TokenType::EOF,
            literal: String::from('\0'),
        },
    ];

    let mut l = Lexer::new(input);

    tests.iter().for_each(|tt| {
        let tok = l.next_token();
        if tok != *tt {
            panic!(
                "Error in token: expected: {}, got {}",
                tt.token_type.name(),
                tok.token_type.name()
            );
        }
    });
}
