//! The routines of expression parsing and the tables that assign them to
//! token kinds: a parser looks up in its tables which routine parses what
//! a token starts, and which one what a token continues.

use crate::token::TokenType;
use vstd::prelude::*;

verus! {

/// The routines that parse what a token starts.
#[derive(Clone, Copy, Debug, PartialEq, Eq, Structural)]
pub enum PrefixRoutine {
    Identifier,
    IntegerLiteral,
    PrefixExpression,
    Boolean,
    GroupedExpression,
    IfExpression,
    FuncExpression,
}

/// The routines that parse what follows an expression.
#[derive(Clone, Copy, Debug, PartialEq, Eq, Structural)]
pub enum InfixRoutine {
    InfixExpression,
    CallExpression,
}

/// The table of prefix routines: for each token kind the routine that
/// parses what the token starts, or none for a token that cannot start an
/// expression.
pub open spec fn prefix_routine_of(kind: TokenType) -> Option<PrefixRoutine> {
    match kind {
        TokenType::IDENT => Some(PrefixRoutine::Identifier),
        TokenType::INT => Some(PrefixRoutine::IntegerLiteral),
        TokenType::BANG => Some(PrefixRoutine::PrefixExpression),
        TokenType::MINUS => Some(PrefixRoutine::PrefixExpression),
        TokenType::TRUE => Some(PrefixRoutine::Boolean),
        TokenType::FALSE => Some(PrefixRoutine::Boolean),
        TokenType::LPAREN => Some(PrefixRoutine::GroupedExpression),
        TokenType::IF => Some(PrefixRoutine::IfExpression),
        TokenType::FUNCTION => Some(PrefixRoutine::FuncExpression),
        _ => None,
    }
}

/// The table of infix routines: for each token kind the routine that
/// parses what the token continues, or none for a token that continues no
/// expression.
pub open spec fn infix_routine_of(kind: TokenType) -> Option<InfixRoutine> {
    match kind {
        TokenType::PLUS => Some(InfixRoutine::InfixExpression),
        TokenType::MINUS => Some(InfixRoutine::InfixExpression),
        TokenType::SLASH => Some(InfixRoutine::InfixExpression),
        TokenType::ASTERISK => Some(InfixRoutine::InfixExpression),
        TokenType::EQ => Some(InfixRoutine::InfixExpression),
        TokenType::NOTEQ => Some(InfixRoutine::InfixExpression),
        TokenType::LT => Some(InfixRoutine::InfixExpression),
        TokenType::GT => Some(InfixRoutine::InfixExpression),
        TokenType::LPAREN => Some(InfixRoutine::CallExpression),
        _ => None,
    }
}

/// What a table of routines holds for a token kind: the routine of the
/// latest entry for that kind.
pub open spec fn lookup_routine<R>(entries: Seq<(TokenType, R)>, kind: TokenType) -> Option<R>
    decreases entries.len(),
{
    if entries.len() == 0 {
        None
    } else if entries.last().0 == kind {
        Some(entries.last().1)
    } else {
        lookup_routine(entries.drop_last(), kind)
    }
}

/// Looks a token kind up in a table of routines; the latest entry for
/// the kind counts.
pub fn find_routine<R: Copy>(table: &Vec<(TokenType, R)>, kind: TokenType) -> (r: Option<R>)
    ensures
        r == lookup_routine(table@, kind),
{
    let mut i: usize = table.len();
    assert(table@.take(i as int) =~= table@);
    while i > 0
        invariant
            i <= table.len(),
            lookup_routine(table@, kind) == lookup_routine(table@.take(i as int), kind),
        decreases i,
    {
        i -= 1;
        if table[i].0 == kind {
            return Some(table[i].1);
        }
        assert(table@.take(i + 1).drop_last() =~= table@.take(i as int));
    }
    None
}

/// What a table holds after one more entry: for the kind of the entry
/// its routine, for every other kind what the table held before.
pub proof fn lemma_lookup_push<R>(entries: Seq<(TokenType, R)>, entry: (TokenType, R))
    ensures
        forall|kind: TokenType| #[trigger]
            lookup_routine(entries.push(entry), kind) == if kind == entry.0 {
                Some(entry.1)
            } else {
                lookup_routine(entries, kind)
            },
{
    assert(entries.push(entry).drop_last() =~= entries);
}

} // verus!
