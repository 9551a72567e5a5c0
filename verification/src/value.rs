//! Literals.

use vstd::prelude::*;
use vstd::string::*;
use crate::fragment::{Fragment, Piece};

verus! {

/// The literal carried by a token or a literal expression.
///
/// A number literal keeps its numeral exactly as it was written; the host
/// rounds it to a binary64 value when the literal is evaluated.
#[derive(Debug, PartialEq)]
pub enum Value {
    Number(String),
    Bool(bool),
    String(String),
    Nil,
    Unitialized,
}

impl Clone for Value {
    fn clone(&self) -> (r: Self)
        ensures
            r == *self,
    {
        match self {
            Value::Number(numeral) => Value::Number(numeral.clone()),
            Value::Bool(b) => Value::Bool(*b),
            Value::String(text) => Value::String(text.clone()),
            Value::Nil => Value::Nil,
            Value::Unitialized => Value::Unitialized,
        }
    }
}

/// What a [`Value`] is, with its texts as character sequences.
pub enum ValueModel {
    Number(Seq<char>),
    Bool(bool),
    String(Seq<char>),
    Nil,
    Unitialized,
}

impl View for Value {
    type V = ValueModel;

    open spec fn view(&self) -> ValueModel {
        match *self {
            Value::Number(numeral) => ValueModel::Number(numeral@),
            Value::Bool(b) => ValueModel::Bool(b),
            Value::String(text) => ValueModel::String(text@),
            Value::Nil => ValueModel::Nil,
            Value::Unitialized => ValueModel::Unitialized,
        }
    }
}

impl Value {
    /// How a literal is listed in a token dump: `null` for none, a string
    /// without its quotes, a number in the shortest form that reads back
    /// as the same value, with `.0` after an integral one.
    pub open spec fn dumped(self) -> Piece {
        match self {
            Value::Number(numeral) => Piece::Numeral(numeral@),
            Value::Bool(b) => if b {
                Piece::Text("true"@)
            } else {
                Piece::Text("false"@)
            },
            Value::String(text) => Piece::Text(text@),
            Value::Nil => Piece::Text("null"@),
            Value::Unitialized => Piece::Text("Unitialized"@),
        }
    }

    /// How a literal is written as a result: as in a token dump, but
    /// `nil` for none, and an integral number without `.0`.
    pub open spec fn written(self) -> Piece {
        match self {
            Value::Nil => Piece::Text("nil"@),
            _ => self.dumped(),
        }
    }

    /// How the literal is listed in a token dump.
    pub fn to_string(&self) -> (r: Fragment)
        ensures
            r@ == self.dumped(),
    {
        match self {
            Value::Number(numeral) => Fragment::Numeral(numeral.clone()),
            Value::Bool(b) => Fragment::Text(
                String::from_str(
                    if *b {
                        "true"
                    } else {
                        "false"
                    },
                ),
            ),
            Value::String(text) => Fragment::Text(text.clone()),
            Value::Nil => Fragment::Text(String::from_str("null")),
            Value::Unitialized => Fragment::Text(String::from_str("Unitialized")),
        }
    }

    /// How the literal is written as a result.
    pub fn interp_to_string(&self) -> (r: Fragment)
        ensures
            r@ == self.written(),
    {
        match self {
            Value::Nil => Fragment::Text(String::from_str("nil")),
            _ => self.to_string(),
        }
    }
}

} // verus!
