//! The lexer: scans source text into tokens, one at a time, looking at most
//! one character ahead.

use crate::text::string_of;
use crate::token::{keyword_kind, lookup_chars, Token, TokenType, TokenView};
use vstd::prelude::*;

verus! {

/// Letters are the ASCII letters and the underscore.
pub open spec fn is_letter_spec(ch: char) -> bool {
    ('a' <= ch && ch <= 'z') || ('A' <= ch && ch <= 'Z') || ch == '_'
}

/// Digits are the ten ASCII decimal digits.
pub open spec fn is_digit_spec(ch: char) -> bool {
    '0' <= ch && ch <= '9'
}

/// Whitespace is space, tab, line feed and carriage return.
pub open spec fn is_space_spec(ch: char) -> bool {
    ch == ' ' || ch == '\t' || ch == '\n' || ch == '\r'
}

/// The character at `pos`, or NUL past the end of the input.
pub open spec fn char_at(input: Seq<char>, pos: int) -> char {
    if 0 <= pos < input.len() {
        input[pos]
    } else {
        '\0'
    }
}

/// One position further, but never past the end of the input.
pub open spec fn step(input: Seq<char>, pos: int) -> int {
    if pos < input.len() {
        pos + 1
    } else {
        pos
    }
}

/// The first position at or after `pos` that holds no whitespace.
pub open spec fn skip_spaces(input: Seq<char>, pos: int) -> int
    decreases input.len() - pos,
{
    if 0 <= pos < input.len() && is_space_spec(input[pos]) {
        skip_spaces(input, pos + 1)
    } else {
        pos
    }
}

/// The end of the maximal run of letters (or of digits) that starts at `pos`.
pub open spec fn run_end(input: Seq<char>, pos: int, letters: bool) -> int
    decreases input.len() - pos,
{
    if 0 <= pos < input.len() && (if letters {
        is_letter_spec(input[pos])
    } else {
        is_digit_spec(input[pos])
    }) {
        run_end(input, pos + 1, letters)
    } else {
        pos
    }
}

/// The kind of a token that is a single character by itself.
pub open spec fn single_kind(ch: char) -> TokenType {
    if ch == '=' {
        TokenType::ASSIGN
    } else if ch == ';' {
        TokenType::SEMICOLON
    } else if ch == '(' {
        TokenType::LPAREN
    } else if ch == ')' {
        TokenType::RPAREN
    } else if ch == ',' {
        TokenType::COMMA
    } else if ch == '+' {
        TokenType::PLUS
    } else if ch == '-' {
        TokenType::MINUS
    } else if ch == '{' {
        TokenType::LBRACE
    } else if ch == '}' {
        TokenType::RBRACE
    } else if ch == '!' {
        TokenType::BANG
    } else if ch == '*' {
        TokenType::ASTERISK
    } else if ch == '<' {
        TokenType::LT
    } else if ch == '>' {
        TokenType::GT
    } else if ch == '/' {
        TokenType::SLASH
    } else if ch == '\0' {
        TokenType::EOF
    } else {
        TokenType::ILLEGAL
    }
}

/// The token that starts at position `p`, and the position after it.
pub open spec fn token_at(input: Seq<char>, p: int) -> (TokenView, int) {
    let ch = char_at(input, p);
    if (ch == '=' || ch == '!') && char_at(input, p + 1) == '=' {
        (
            TokenView {
                kind: if ch == '=' {
                    TokenType::EQ
                } else {
                    TokenType::NOTEQ
                },
                literal: seq![ch, '='],
            },
            p + 2,
        )
    } else if is_letter_spec(ch) {
        let end = run_end(input, p, true);
        let word = input.subrange(p, end);
        (TokenView { kind: keyword_kind(word), literal: word }, end)
    } else if is_digit_spec(ch) {
        let end = run_end(input, p, false);
        (TokenView { kind: TokenType::INT, literal: input.subrange(p, end) }, end)
    } else {
        (TokenView { kind: single_kind(ch), literal: seq![ch] }, step(input, p))
    }
}

/// The next token at or after position `pos`, and the position after it.
pub open spec fn next_token_spec(input: Seq<char>, pos: int) -> (TokenView, int) {
    token_at(input, skip_spaces(input, pos))
}

/// Skipping whitespace moves forward, stays within the input, and stops on
/// a character that is no whitespace.
pub proof fn lemma_skip_spaces(input: Seq<char>, pos: int)
    requires
        0 <= pos <= input.len(),
    ensures
        pos <= skip_spaces(input, pos) <= input.len(),
        !is_space_spec(char_at(input, skip_spaces(input, pos))),
        forall|k: int| pos <= k < skip_spaces(input, pos) ==> is_space_spec(#[trigger] input[k]),
    decreases input.len() - pos,
{
    if pos < input.len() && is_space_spec(input[pos]) {
        lemma_skip_spaces(input, pos + 1);
    }
}

/// A run ends within the input, holds only characters of its class, and is
/// followed by a character of another class.
pub proof fn lemma_run_end(input: Seq<char>, pos: int, letters: bool)
    requires
        0 <= pos <= input.len(),
    ensures
        pos <= run_end(input, pos, letters) <= input.len(),
        forall|k: int|
            pos <= k < run_end(input, pos, letters) ==> if letters {
                is_letter_spec(#[trigger] input[k])
            } else {
                is_digit_spec(#[trigger] input[k])
            },
        !(if letters {
            is_letter_spec(char_at(input, run_end(input, pos, letters)))
        } else {
            is_digit_spec(char_at(input, run_end(input, pos, letters)))
        }),
    decreases input.len() - pos,
{
    if pos < input.len() && (if letters {
        is_letter_spec(input[pos])
    } else {
        is_digit_spec(input[pos])
    }) {
        lemma_run_end(input, pos + 1, letters);
    }
}

/// A text made only of characters of one class is a single run.
pub proof fn lemma_run_to_end(input: Seq<char>, pos: int, letters: bool)
    requires
        0 <= pos <= input.len(),
        forall|k: int|
            pos <= k < input.len() ==> if letters {
                is_letter_spec(#[trigger] input[k])
            } else {
                is_digit_spec(#[trigger] input[k])
            },
    ensures
        run_end(input, pos, letters) == input.len(),
    decreases input.len() - pos,
{
    if pos < input.len() {
        lemma_run_to_end(input, pos + 1, letters);
    }
}

/// The position after a token lies within the input, and beyond the
/// token's start unless the input has ended.
pub proof fn lemma_next_token_advances(input: Seq<char>, pos: int)
    requires
        0 <= pos <= input.len(),
    ensures
        pos <= next_token_spec(input, pos).1 <= input.len(),
        pos < input.len() ==> pos < next_token_spec(input, pos).1,
        next_token_spec(input, pos).0.kind != TokenType::EOF ==> pos < next_token_spec(
            input,
            pos,
        ).1,
{
    lemma_skip_spaces(input, pos);
    let p = skip_spaces(input, pos);
    lemma_run_end(input, p, true);
    lemma_run_end(input, p, false);
}

/// Lexing the literal text of a token again yields the same token: every
/// token the lexer emits is a fixed point of lexing.
pub proof fn lemma_relex_literal(input: Seq<char>, pos: int)
    requires
        0 <= pos <= input.len(),
    ensures
        next_token_spec(next_token_spec(input, pos).0.literal, 0).0 == next_token_spec(
            input,
            pos,
        ).0,
{
    lemma_skip_spaces(input, pos);
    let p = skip_spaces(input, pos);
    let ch = char_at(input, p);
    let tok = token_at(input, p).0;
    let lit = tok.literal;
    lemma_run_end(input, p, true);
    lemma_run_end(input, p, false);
    if (ch == '=' || ch == '!') && char_at(input, p + 1) == '=' {
        assert(skip_spaces(lit, 0) == 0);
        assert(token_at(lit, 0).0 == tok);
    } else if is_letter_spec(ch) {
        let end = run_end(input, p, true);
        assert(lit == input.subrange(p, end));
        assert(lit.len() > 0);
        assert(lit[0] == ch);
        assert(skip_spaces(lit, 0) == 0);
        assert forall|k: int| 0 <= k < lit.len() implies is_letter_spec(#[trigger] lit[k]) by {
            assert(lit[k] == input[p + k]);
        }
        lemma_run_to_end(lit, 0, true);
        assert(lit.subrange(0, lit.len() as int) =~= lit);
        assert(token_at(lit, 0).0 == tok);
    } else if is_digit_spec(ch) {
        let end = run_end(input, p, false);
        assert(lit == input.subrange(p, end));
        assert(lit.len() > 0);
        assert(lit[0] == ch);
        assert(skip_spaces(lit, 0) == 0);
        assert forall|k: int| 0 <= k < lit.len() implies is_digit_spec(#[trigger] lit[k]) by {
            assert(lit[k] == input[p + k]);
        }
        lemma_run_to_end(lit, 0, false);
        assert(lit.subrange(0, lit.len() as int) =~= lit);
        assert(token_at(lit, 0).0 == tok);
    } else {
        assert(lit == seq![ch]);
        assert(lit[0] == ch);
        assert(skip_spaces(lit, 0) == 0);
        assert(char_at(lit, 1) == '\0');
        assert(token_at(lit, 0).0 == tok);
    }
}

/// The literal of a token is the text it was read from: the characters
/// between the first one that is no whitespace and the position after the
/// token. Only at the end of the input, where there is no text left, the
/// literal is a single NUL.
pub proof fn lemma_literal_is_source_text(input: Seq<char>, pos: int)
    requires
        0 <= pos <= input.len(),
    ensures
        skip_spaces(input, pos) < input.len() ==> next_token_spec(input, pos).0.literal
            == input.subrange(skip_spaces(input, pos), next_token_spec(input, pos).1),
        skip_spaces(input, pos) >= input.len() ==> next_token_spec(input, pos).0 == (TokenView {
            kind: TokenType::EOF,
            literal: seq!['\0'],
        }),
{
    lemma_skip_spaces(input, pos);
    let p = skip_spaces(input, pos);
    let tok = token_at(input, p);
    lemma_run_end(input, p, true);
    lemma_run_end(input, p, false);
    if p < input.len() {
        assert(tok.0.literal =~= input.subrange(p, tok.1));
    }
}

/// At the end of the input the next token is the end marker, and the
/// position stays: a lexer that has reached the end gives the end marker
/// on every later call.
pub proof fn lemma_end_marker_repeats(input: Seq<char>)
    ensures
        next_token_spec(input, input.len() as int) == (
            TokenView { kind: TokenType::EOF, literal: seq!['\0'] },
            input.len() as int,
        ),
{
}

/// The mathematical state of a lexer: the whole input and the position of
/// the character under examination.
pub struct LexerView {
    pub input: Seq<char>,
    pub pos: int,
}

/// A lexer over a fixed input.
#[derive(Debug)]
pub struct Lexer {
    input: Vec<char>,
    position: usize,
    read_position: usize,
    ch: char,
}

impl View for Lexer {
    type V = LexerView;

    closed spec fn view(&self) -> LexerView {
        LexerView { input: self.input@, pos: self.position as int }
    }
}

impl Lexer {
    /// The representation invariant: the position lies within the input,
    /// and the lookahead fields agree with it.
    pub closed spec fn wf(&self) -> bool {
        &&& self.position <= self.input.len()
        &&& self.read_position == step(self.input@, self.position as int)
        &&& self.ch == char_at(self.input@, self.position as int)
    }

    /// In a well-formed lexer the position lies within the input.
    pub proof fn lemma_wf_bounds(&self)
        requires
            self.wf(),
        ensures
            0 <= self@.pos <= self@.input.len(),
    {
    }

    /// A lexer at the start of `input`.
    pub fn new(input: Vec<char>) -> (l: Lexer)
        ensures
            l.wf(),
            l@ == (LexerView { input: input@, pos: 0 }),
    {
        let mut l = Lexer { input, position: 0, read_position: 0, ch: '\0' };
        l.ch = if l.input.len() > 0 {
            l.input[0]
        } else {
            '\0'
        };
        l.read_position = if l.input.len() > 0 {
            1
        } else {
            0
        };
        l
    }

    /// Moves on to the next character; stays put at the end of the input.
    pub fn read_char(&mut self)
        requires
            old(self).wf(),
        ensures
            final(self).wf(),
            final(self)@ == (LexerView {
                input: old(self)@.input,
                pos: step(old(self)@.input, old(self)@.pos),
            }),
    {
        self.position = self.read_position;
        if self.read_position < self.input.len() {
            self.ch = self.input[self.read_position];
            self.read_position = self.read_position + 1;
        } else {
            self.ch = '\0';
        }
    }

    /// The character after the one under examination, or NUL at the end.
    pub fn peek_char(&self) -> (ch: char)
        requires
            self.wf(),
        ensures
            ch == char_at(self@.input, self@.pos + 1),
    {
        if self.position < self.input.len() && self.read_position < self.input.len() {
            self.input[self.read_position]
        } else {
            '\0'
        }
    }

    /// Whether `ch` is an ASCII letter or the underscore.
    pub fn is_letter(ch: char) -> (r: bool)
        ensures
            r == is_letter_spec(ch),
    {
        'a' <= ch && ch <= 'z' || 'A' <= ch && ch <= 'Z' || ch == '_'
    }

    /// Whether `ch` is an ASCII decimal digit.
    pub fn is_digit(ch: char) -> (r: bool)
        ensures
            r == is_digit_spec(ch),
    {
        '0' <= ch && ch <= '9'
    }

    /// Moves past any whitespace under the current position.
    pub fn skip_white_space(&mut self)
        requires
            old(self).wf(),
        ensures
            final(self).wf(),
            final(self)@ == (LexerView {
                input: old(self)@.input,
                pos: skip_spaces(old(self)@.input, old(self)@.pos),
            }),
    {
        while self.ch == ' ' || self.ch == '\t' || self.ch == '\n' || self.ch == '\r'
            invariant
                self.wf(),
                self.input@ == old(self).input@,
                old(self).position <= self.position,
                skip_spaces(self.input@, self.position as int) == skip_spaces(
                    old(self).input@,
                    old(self).position as int,
                ),
            decreases self.input.len() - self.position,
        {
            self.read_char();
        }
    }

    /// Reads the maximal run of letters that starts at the current position.
    pub fn read_identifier(&mut self) -> (word: Vec<char>)
        requires
            old(self).wf(),
        ensures
            final(self).wf(),
            final(self)@ == (LexerView {
                input: old(self)@.input,
                pos: run_end(old(self)@.input, old(self)@.pos, true),
            }),
            word@ == old(self)@.input.subrange(
                old(self)@.pos,
                run_end(old(self)@.input, old(self)@.pos, true),
            ),
    {
        let pos = self.position;
        while Lexer::is_letter(self.ch)
            invariant
                self.wf(),
                self.input@ == old(self).input@,
                pos == old(self).position,
                pos <= self.position,
                run_end(self.input@, self.position as int, true) == run_end(
                    old(self).input@,
                    old(self).position as int,
                    true,
                ),
            decreases self.input.len() - self.position,
        {
            self.read_char();
        }
        self.copy_range(pos, self.position)
    }

    /// Reads the maximal run of digits that starts at the current position.
    pub fn read_number(&mut self) -> (digits: Vec<char>)
        requires
            old(self).wf(),
        ensures
            final(self).wf(),
            final(self)@ == (LexerView {
                input: old(self)@.input,
                pos: run_end(old(self)@.input, old(self)@.pos, false),
            }),
            digits@ == old(self)@.input.subrange(
                old(self)@.pos,
                run_end(old(self)@.input, old(self)@.pos, false),
            ),
    {
        let pos = self.position;
        while Lexer::is_digit(self.ch)
            invariant
                self.wf(),
                self.input@ == old(self).input@,
                pos == old(self).position,
                pos <= self.position,
                run_end(self.input@, self.position as int, false) == run_end(
                    old(self).input@,
                    old(self).position as int,
                    false,
                ),
            decreases self.input.len() - self.position,
        {
            self.read_char();
        }
        self.copy_range(pos, self.position)
    }

    /// A copy of the input characters in `from..to`.
    fn copy_range(&self, from: usize, to: usize) -> (out: Vec<char>)
        requires
            from <= to <= self.input.len(),
        ensures
            out@ == self.input@.subrange(from as int, to as int),
    {
        let mut out: Vec<char> = Vec::new();
        let mut i: usize = from;
        while i < to
            invariant
                from <= i <= to <= self.input.len(),
                out@ == self.input@.subrange(from as int, i as int),
            decreases to - i,
        {
            out.push(self.input[i]);
            assert(self.input@.subrange(from as int, i as int).push(self.input@[i as int])
                =~= self.input@.subrange(from as int, i + 1));
            i += 1;
        }
        out
    }

    /// Reads one token and moves past it. At the end of the input it
    /// returns the end marker, and does so again on every later call.
    pub fn next_token(&mut self) -> (tok: Token)
        requires
            old(self).wf(),
        ensures
            final(self).wf(),
            tok@ == next_token_spec(old(self)@.input, old(self)@.pos).0,
            final(self)@ == (LexerView {
                input: old(self)@.input,
                pos: next_token_spec(old(self)@.input, old(self)@.pos).1,
            }),
    {
        self.skip_white_space();
        let ch = self.ch;
        let mut literal = String::new();
        literal.push(ch);
        assert(literal@ =~= seq![ch]);
        let token_type: TokenType;
        if ch == '=' || ch == '!' {
            if self.peek_char() == '=' {
                self.read_char();
                literal.push(self.ch);
                self.read_char();
                assert(literal@ =~= seq![ch, '=']);
                return Token {
                    token_type: if ch == '=' {
                        TokenType::EQ
                    } else {
                        TokenType::NOTEQ
                    },
                    literal,
                };
            }
            token_type = if ch == '=' {
                TokenType::ASSIGN
            } else {
                TokenType::BANG
            };
        } else if Lexer::is_letter(ch) {
            let word = self.read_identifier();
            let kind = lookup_chars(&word);
            return Token { token_type: kind, literal: string_of(&word) };
        } else if Lexer::is_digit(ch) {
            let digits = self.read_number();
            return Token { token_type: TokenType::INT, literal: string_of(&digits) };
        } else {
            token_type = match ch {
                ';' => TokenType::SEMICOLON,
                '(' => TokenType::LPAREN,
                ')' => TokenType::RPAREN,
                ',' => TokenType::COMMA,
                '+' => TokenType::PLUS,
                '-' => TokenType::MINUS,
                '{' => TokenType::LBRACE,
                '}' => TokenType::RBRACE,
                '*' => TokenType::ASTERISK,
                '<' => TokenType::LT,
                '>' => TokenType::GT,
                '/' => TokenType::SLASH,
                '\0' => TokenType::EOF,
                _ => TokenType::ILLEGAL,
            };
        }
        self.read_char();
        Token { token_type, literal }
    }
}

} // verus!
