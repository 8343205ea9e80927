//! Tokens: the smallest lexical units, each a kind and its literal text.

use crate::text::{chars_eq, chars_of};
use vstd::prelude::*;
use vstd::std_specs::cmp::PartialEqSpecImpl;

verus! {

/// The closed set of token kinds.
#[derive(Clone, Copy, Debug, PartialEq, Eq, Structural)]
pub enum TokenType {
    ILLEGAL,
    EOF,
    // Identifiers and literals
    IDENT,
    INT,
    STRING,
    // Operators
    ASSIGN,
    PLUS,
    MINUS,
    BANG,
    ASTERISK,
    SLASH,
    // Comparison
    LT,
    GT,
    EQ,
    NOTEQ,
    // Delimiters
    COMMA,
    SEMICOLON,
    COLON,
    // Brackets
    LPAREN,
    RPAREN,
    LBRACE,
    RBRACE,
    LBRACKET,
    RBRACKET,
    // Keywords
    FUNCTION,
    LET,
    TRUE,
    FALSE,
    IF,
    ELSE,
    RETURN,
    // Marks a block of statements; no source text lexes to it.
    BLOCK,
}

impl TokenType {
    /// The name under which a kind appears in diagnostics.
    pub open spec fn name_spec(self) -> Seq<char> {
        match self {
            TokenType::ILLEGAL => "ILLEGAL"@,
            TokenType::EOF => "EOF"@,
            TokenType::IDENT => "IDENT"@,
            TokenType::INT => "INT"@,
            TokenType::STRING => "STRING"@,
            TokenType::ASSIGN => "ASSIGN"@,
            TokenType::PLUS => "PLUS"@,
            TokenType::MINUS => "MINUS"@,
            TokenType::BANG => "BANG"@,
            TokenType::ASTERISK => "ASTERISK"@,
            TokenType::SLASH => "SLASH"@,
            TokenType::LT => "LT"@,
            TokenType::GT => "GT"@,
            TokenType::EQ => "EQ"@,
            TokenType::NOTEQ => "NOTEQ"@,
            TokenType::COMMA => "COMMA"@,
            TokenType::SEMICOLON => "SEMICOLON"@,
            TokenType::COLON => "COLON"@,
            TokenType::LPAREN => "LPAREN"@,
            TokenType::RPAREN => "RPAREN"@,
            TokenType::LBRACE => "LBRACE"@,
            TokenType::RBRACE => "RBRACE"@,
            TokenType::LBRACKET => "LBRACKET"@,
            TokenType::RBRACKET => "RBRACKET"@,
            TokenType::FUNCTION => "FUNCTION"@,
            TokenType::LET => "LET"@,
            TokenType::TRUE => "TRUE"@,
            TokenType::FALSE => "FALSE"@,
            TokenType::IF => "IF"@,
            TokenType::ELSE => "ELSE"@,
            TokenType::RETURN => "RETURN"@,
            TokenType::BLOCK => "BLOCK"@,
        }
    }

    /// The name under which a kind appears in diagnostics.
    pub fn name(&self) -> (r: &'static str)
        ensures
            r@ == self.name_spec(),
    {
        match self {
            TokenType::ILLEGAL => "ILLEGAL",
            TokenType::EOF => "EOF",
            TokenType::IDENT => "IDENT",
            TokenType::INT => "INT",
            TokenType::STRING => "STRING",
            TokenType::ASSIGN => "ASSIGN",
            TokenType::PLUS => "PLUS",
            TokenType::MINUS => "MINUS",
            TokenType::BANG => "BANG",
            TokenType::ASTERISK => "ASTERISK",
            TokenType::SLASH => "SLASH",
            TokenType::LT => "LT",
            TokenType::GT => "GT",
            TokenType::EQ => "EQ",
            TokenType::NOTEQ => "NOTEQ",
            TokenType::COMMA => "COMMA",
            TokenType::SEMICOLON => "SEMICOLON",
            TokenType::COLON => "COLON",
            TokenType::LPAREN => "LPAREN",
            TokenType::RPAREN => "RPAREN",
            TokenType::LBRACE => "LBRACE",
            TokenType::RBRACE => "RBRACE",
            TokenType::LBRACKET => "LBRACKET",
            TokenType::RBRACKET => "RBRACKET",
            TokenType::FUNCTION => "FUNCTION",
            TokenType::LET => "LET",
            TokenType::TRUE => "TRUE",
            TokenType::FALSE => "FALSE",
            TokenType::IF => "IF",
            TokenType::ELSE => "ELSE",
            TokenType::RETURN => "RETURN",
            TokenType::BLOCK => "BLOCK",
        }
    }
}

/// A token: its kind and the text it was read from.
#[derive(Debug)]
pub struct Token {
    pub token_type: TokenType,
    pub literal: String,
}

/// The mathematical value of a token.
pub struct TokenView {
    pub kind: TokenType,
    pub literal: Seq<char>,
}

impl View for Token {
    type V = TokenView;

    open spec fn view(&self) -> TokenView {
        TokenView { kind: self.token_type, literal: self.literal@ }
    }
}

impl Clone for Token {
    fn clone(&self) -> (r: Self)
        ensures
            r == *self,
    {
        Token { token_type: self.token_type, literal: self.literal.clone() }
    }
}

impl PartialEq for Token {
    /// Tokens are equal when kind and literal text are.
    fn eq(&self, other: &Self) -> (r: bool) {
        self.token_type == other.token_type && self.literal == other.literal
    }
}

impl PartialEqSpecImpl for Token {
    open spec fn obeys_eq_spec() -> bool {
        true
    }

    open spec fn eq_spec(&self, other: &Self) -> bool {
        self@ == other@
    }
}

/// The kind of a word: a keyword's own kind for the seven reserved words,
/// the generic identifier kind for every other text.
pub open spec fn keyword_kind(word: Seq<char>) -> TokenType {
    if word == "fn"@ {
        TokenType::FUNCTION
    } else if word == "let"@ {
        TokenType::LET
    } else if word == "true"@ {
        TokenType::TRUE
    } else if word == "false"@ {
        TokenType::FALSE
    } else if word == "if"@ {
        TokenType::IF
    } else if word == "else"@ {
        TokenType::ELSE
    } else if word == "return"@ {
        TokenType::RETURN
    } else {
        TokenType::IDENT
    }
}

/// Looks a word, given as characters, up in the keyword table.
pub fn lookup_chars(word: &Vec<char>) -> (kind: TokenType)
    ensures
        kind == keyword_kind(word@),
{
    if chars_eq(word, &chars_of("fn")) {
        TokenType::FUNCTION
    } else if chars_eq(word, &chars_of("let")) {
        TokenType::LET
    } else if chars_eq(word, &chars_of("true")) {
        TokenType::TRUE
    } else if chars_eq(word, &chars_of("false")) {
        TokenType::FALSE
    } else if chars_eq(word, &chars_of("if")) {
        TokenType::IF
    } else if chars_eq(word, &chars_of("else")) {
        TokenType::ELSE
    } else if chars_eq(word, &chars_of("return")) {
        TokenType::RETURN
    } else {
        TokenType::IDENT
    }
}

impl Token {
    /// Looks a word up in the keyword table.
    pub fn lookup_ident(ident: &str) -> (kind: TokenType)
        ensures
            kind == keyword_kind(ident@),
    {
        let word = chars_of(ident);
        lookup_chars(&word)
    }
}

} // verus!
