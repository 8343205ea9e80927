//! Runtime values: what evaluation produces and environments store.

use crate::ast::{
    clone_expressions, clone_statement, exprs_model, render_expression_list,
    render_statement, render_stmt, rendered_exprs, ExprView, Expression, Statement, StmtView,
};
use crate::text::{decimal, i64_to_string, join};
use vstd::prelude::*;
use vstd::string::*;

verus! {

/// A runtime value. `Return` and `Error` are signals to the evaluator:
/// the first unwinds to the nearest enclosing statement sequence, the
/// second aborts evaluation. A function remembers the scope it was
/// defined in by that scope's index in the environment.
#[derive(Debug)]
#[allow(inconsistent_fields)]
pub enum Object {
    Integer { value: i64 },
    Boolean { value: bool },
    Return { value: Box<Object> },
    Error { message: String },
    Null {  },
    Function { parameters: Vec<Expression>, body: Box<Statement>, env: usize },
}

/// The mathematical value of a runtime value.
#[allow(inconsistent_fields)]
pub enum ObjectView {
    Integer { value: i64 },
    Boolean { value: bool },
    Return { value: Box<ObjectView> },
    Error { message: Seq<char> },
    Null,
    Function { parameters: Seq<ExprView>, body: Box<StmtView>, env: nat },
}

/// The model of a runtime value.
pub open spec fn object_model(o: &Object) -> ObjectView
    decreases o,
{
    match o {
        Object::Integer { value } => ObjectView::Integer { value: *value },
        Object::Boolean { value } => ObjectView::Boolean { value: *value },
        Object::Return { value } => ObjectView::Return { value: Box::new(object_model(value)) },
        Object::Error { message } => ObjectView::Error { message: message@ },
        Object::Null {  } => ObjectView::Null,
        Object::Function { parameters, body, env } => ObjectView::Function {
            parameters: exprs_model(parameters),
            body: Box::new(body@),
            env: *env as nat,
        },
    }
}

impl View for Object {
    type V = ObjectView;

    open spec fn view(&self) -> ObjectView {
        object_model(self)
    }
}

impl ObjectView {
    /// The name of a value's type, as it appears in error messages.
    pub open spec fn kind_name(self) -> Seq<char> {
        match self {
            ObjectView::Integer { .. } => "INTEGER"@,
            ObjectView::Boolean { .. } => "BOOLEAN"@,
            ObjectView::Return { .. } => "RETURN"@,
            ObjectView::Error { .. } => "ERROR"@,
            ObjectView::Null => "NULL"@,
            ObjectView::Function { .. } => "FUNCTION"@,
        }
    }

    /// The text shown for a value: the numeral of an integer, `true` or
    /// `false`, `null`, an error's message after `ERROR: `, the text of
    /// what a return signal carries, and a function as its literal.
    pub open spec fn inspect_text(self) -> Seq<char>
        decreases self,
    {
        match self {
            ObjectView::Integer { value } => decimal(value as int),
            ObjectView::Boolean { value } => if value {
                "true"@
            } else {
                "false"@
            },
            ObjectView::Return { value } => value.inspect_text(),
            ObjectView::Error { message } => "ERROR: "@ + message,
            ObjectView::Null => "null"@,
            ObjectView::Function { parameters, body, .. } => "fn("@ + join(
                rendered_exprs(parameters),
                ", "@,
            ) + ") "@ + render_stmt(*body),
        }
    }
}

/// A deep copy of a runtime value.
pub fn clone_object(o: &Object) -> (r: Object)
    ensures
        r@ == o@,
    decreases o,
{
    match o {
        Object::Integer { value } => Object::Integer { value: *value },
        Object::Boolean { value } => Object::Boolean { value: *value },
        Object::Return { value } => Object::Return { value: Box::new(clone_object(value)) },
        Object::Error { message } => Object::Error { message: message.clone() },
        Object::Null {  } => Object::Null {  },
        Object::Function { parameters, body, env } => Object::Function {
            parameters: clone_expressions(parameters),
            body: Box::new(clone_statement(body)),
            env: *env,
        },
    }
}

impl Clone for Object {
    fn clone(&self) -> (r: Self)
        ensures
            r@ == self@,
    {
        clone_object(self)
    }
}

impl Object {
    /// The name of the value's type, as it appears in error messages.
    pub fn get_type(&self) -> (r: String)
        ensures
            r@ == self@.kind_name(),
    {
        match self {
            Object::Integer { .. } => String::from_str("INTEGER"),
            Object::Boolean { .. } => String::from_str("BOOLEAN"),
            Object::Return { .. } => String::from_str("RETURN"),
            Object::Error { .. } => String::from_str("ERROR"),
            Object::Null {  } => String::from_str("NULL"),
            Object::Function { .. } => String::from_str("FUNCTION"),
        }
    }

    /// The text shown for the value.
    pub fn inspect(&self) -> (r: String)
        ensures
            r@ == self@.inspect_text(),
        decreases self,
    {
        match self {
            Object::Integer { value } => i64_to_string(*value),
            Object::Boolean { value } => if *value {
                String::from_str("true")
            } else {
                String::from_str("false")
            },
            Object::Return { value } => value.inspect(),
            Object::Error { message } => {
                let mut out = String::from_str("ERROR: ");
                out.append(message.as_str());
                out
            },
            Object::Null {  } => String::from_str("null"),
            Object::Function { parameters, body, .. } => {
                let list = render_expression_list(parameters);
                let b = render_statement(body);
                let mut out = String::from_str("fn(");
                out.append(list.as_str());
                out.append(") ");
                out.append(b.as_str());
                out
            },
        }
    }

    /// The boolean value `obj`.
    pub fn get_bool_obj(obj: bool) -> (r: Object)
        ensures
            r@ == (ObjectView::Boolean { value: obj }),
    {
        match obj {
            true => Object::Boolean { value: true },
            false => Object::Boolean { value: false },
        }
    }

    /// The null value.
    pub fn get_null_object() -> (r: Object)
        ensures
            r@ == ObjectView::Null,
    {
        Object::Null {  }
    }
}

} // verus!
