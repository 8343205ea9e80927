//! One round of a read-eval-print loop, without the reading and the
//! printing: from a line of source text to the values to show.

use crate::ast::stmts_model;
use crate::environment::Environment;
use crate::evaluator::model::{eval_trace_spec, objects_model};
use crate::evaluator::{eval_statements_traced, MAX_CALL_DEPTH};
use crate::object::Object;
use crate::lexer::Lexer;
use crate::parser::{parse_source, strings_model, Parser};
use crate::text::chars_of;
use vstd::prelude::*;

verus! {

/// Lexes, parses and evaluates one piece of source text in `env`. If
/// parsing leaves diagnostics, they are the result and nothing is
/// evaluated. Otherwise the result holds the value of each statement that
/// was evaluated, in order: all of them, or those up to and including the
/// first that gives a return signal or an error.
pub fn lpe(input: String, env: &mut Environment) -> (r: Result<Vec<Object>, Vec<String>>)
    requires
        old(env).wf(),
    ensures
        final(env).wf(),
        match r {
            Ok(trace) => {
                &&& parse_source(input@).1.len() == 0
                &&& (objects_model(&trace), final(env)@) == eval_trace_spec(
                    parse_source(input@).0,
                    Seq::empty(),
                    old(env)@,
                    MAX_CALL_DEPTH as nat,
                )
            },
            Err(diagnostics) => {
                &&& parse_source(input@).1.len() > 0
                &&& strings_model(&diagnostics) == parse_source(input@).1
                &&& final(env)@ == old(env)@
            },
        },
{
    let l = Lexer::new(chars_of(input.as_str()));
    let mut p = Parser::new(l);

    let program = p.parse_program();
    if let Err(diagnostics) = p.check_parse_errors() {
        return Err(diagnostics);
    }
    assert(program@ =~= stmts_model(&program.statements));
    Ok(eval_statements_traced(&program.statements, env, MAX_CALL_DEPTH))
}

} // verus!
