//! The shapes a value of the evaluator can have, and which of them have a
//! plain text.

use crate::text::{decimal, push_decimal, signed_decimal};
use vstd::prelude::*;

verus! {

/// A value by its shape, with what the plain text is made of where the shape
/// has one.
#[derive(Clone, Debug, PartialEq, Eq)]
pub enum Value {
    Null,
    Bool(bool),
    Integer(i64),
    /// A floating-point number, as its rendering.
    Float(String),
    /// A string, as its content.
    String(String),
    Path,
    Attrs,
    List,
    Closure,
    Builtin,
    Thunk,
    AttrNotFound,
    Blueprint,
    DeferredUpvalue,
    UnresolvedPath,
    FinaliseRequest,
    Catchable,
}

/// The plain text of a value, or of no value; `None` for a shape that has
/// none.
pub open spec fn plain_text(value: Option<Value>) -> Option<Seq<char>> {
    match value {
        None => Some("Null"@),
        Some(Value::Null) => Some("Null"@),
        Some(Value::Bool(b)) => Some(
            if b {
                "true"@
            } else {
                "false"@
            },
        ),
        Some(Value::Integer(n)) => Some(signed_decimal(n as int)),
        Some(Value::Float(text)) => Some(text@),
        Some(Value::String(text)) => Some(text@),
        Some(_) => None,
    }
}

/// `n` in base ten.
pub fn integer_text(n: i64) -> (out: String)
    ensures
        out@ == signed_decimal(n as int),
{
    let mut out = String::new();
    if n < 0 {
        out.push('-');
        let magnitude: u64 = ((-(n + 1)) as u64) + 1;
        push_decimal(&mut out, magnitude);
        assert(out@ =~= seq!['-'] + decimal((-n) as nat));
    } else {
        push_decimal(&mut out, n as u64);
        assert(out@ =~= decimal(n as nat));
    }
    out
}

/// The plain text of what an evaluation gave: `Null` for no value and for
/// null, the usual words for a boolean, base ten for an integer, and the text
/// itself for a float's rendering and for a string. The other shapes have no
/// plain text, and for them the answer is `None`.
pub fn convert_expression_to_string(value: Option<Value>) -> (out: Option<String>)
    ensures
        match out {
            Some(text) => plain_text(value) == Some(text@),
            None => plain_text(value) is None,
        },
{
    match value {
        None => Some(String::from_str("Null")),
        Some(Value::Null) => Some(String::from_str("Null")),
        Some(Value::Bool(b)) => Some(
            if b {
                String::from_str("true")
            } else {
                String::from_str("false")
            },
        ),
        Some(Value::Integer(n)) => Some(integer_text(n)),
        Some(Value::Float(text)) => Some(text),
        Some(Value::String(text)) => Some(text),
        Some(_) => None,
    }
}

} // verus!
