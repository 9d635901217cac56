//! Literal values: the payloads that `Literal` nodes of the syntax
//! tree carry, and their model over character sequences.

use vstd::prelude::*;

verus! {

/// Literal payload carried by `Literal` nodes of the syntax tree.
///
/// A numeric literal keeps its source spelling, a string matching the
/// decimal shape the lexer accepts; the front end never needs the numeric
/// value itself, only the fact that the word had numeric shape.
#[derive(Debug, PartialEq)]
pub enum Value {
    Number(String),
    String(String),
    Boolean(bool),
    Nothing,
}

/// Mathematical model of a [`Value`]: the same variants over character
/// sequences.
pub ghost enum SpecValue {
    Number(Seq<char>),
    Str(Seq<char>),
    Boolean(bool),
    Nothing,
}

impl View for Value {
    type V = SpecValue;

    open spec fn view(&self) -> SpecValue {
        match self {
            Value::Number(s) => SpecValue::Number(s@),
            Value::String(s) => SpecValue::Str(s@),
            Value::Boolean(b) => SpecValue::Boolean(*b),
            Value::Nothing => SpecValue::Nothing,
        }
    }
}

} // verus!
