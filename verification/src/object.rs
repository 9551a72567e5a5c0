//! Runtime values, and numbers as bit patterns.

use vstd::prelude::*;
use vstd::string::*;
use crate::fragment::{Fragment, Piece};
use crate::statement::Stmt;
use crate::token::Token;

verus! {

/// The sign bit of a binary64 pattern.
pub const SIGN_BIT: u64 = 0x8000_0000_0000_0000;

/// The pattern of positive infinity; every larger magnitude is a NaN.
pub const INFINITY_BITS: u64 = 0x7ff0_0000_0000_0000;

/// The pattern without its sign bit.
pub open spec fn magnitude(bits: u64) -> u64 {
    if bits >= SIGN_BIT {
        (bits - SIGN_BIT) as u64
    } else {
        bits
    }
}

/// Whether the pattern is a NaN.
pub open spec fn is_nan(bits: u64) -> bool {
    magnitude(bits) > INFINITY_BITS
}

/// The place of a number that is no NaN in the order of the numbers: the
/// magnitude, negated under a sign bit. Both zeros have place 0.
pub open spec fn rank(bits: u64) -> int {
    if bits >= SIGN_BIT {
        -(magnitude(bits) as int)
    } else {
        magnitude(bits) as int
    }
}

/// IEEE-754 `==`: false where either side is a NaN.
pub open spec fn number_equal(a: u64, b: u64) -> bool {
    !is_nan(a) && !is_nan(b) && rank(a) == rank(b)
}

/// IEEE-754 `<`: false where either side is a NaN.
pub open spec fn number_less(a: u64, b: u64) -> bool {
    !is_nan(a) && !is_nan(b) && rank(a) < rank(b)
}

/// IEEE-754 `<=`: false where either side is a NaN.
pub open spec fn number_less_equal(a: u64, b: u64) -> bool {
    !is_nan(a) && !is_nan(b) && rank(a) <= rank(b)
}

/// The pattern with its sign bit flipped.
pub open spec fn negated(bits: u64) -> u64 {
    if bits >= SIGN_BIT {
        (bits - SIGN_BIT) as u64
    } else {
        (bits + SIGN_BIT) as u64
    }
}

/// IEEE-754 `==` on bit patterns.
pub fn numbers_equal(a: u64, b: u64) -> (r: bool)
    ensures
        r == number_equal(a, b),
{
    let ma = if a >= SIGN_BIT { a - SIGN_BIT } else { a };
    let mb = if b >= SIGN_BIT { b - SIGN_BIT } else { b };
    if ma > INFINITY_BITS || mb > INFINITY_BITS {
        false
    } else if (a >= SIGN_BIT) == (b >= SIGN_BIT) {
        ma == mb
    } else {
        ma == 0 && mb == 0
    }
}

/// IEEE-754 `<` on bit patterns.
pub fn numbers_less(a: u64, b: u64) -> (r: bool)
    ensures
        r == number_less(a, b),
{
    let ma = if a >= SIGN_BIT { a - SIGN_BIT } else { a };
    let mb = if b >= SIGN_BIT { b - SIGN_BIT } else { b };
    if ma > INFINITY_BITS || mb > INFINITY_BITS {
        false
    } else if a >= SIGN_BIT {
        if b >= SIGN_BIT {
            ma > mb
        } else {
            ma > 0 || mb > 0
        }
    } else {
        b < SIGN_BIT && ma < mb
    }
}

/// IEEE-754 `<=` on bit patterns.
pub fn numbers_less_equal(a: u64, b: u64) -> (r: bool)
    ensures
        r == number_less_equal(a, b),
{
    let ma = if a >= SIGN_BIT { a - SIGN_BIT } else { a };
    let mb = if b >= SIGN_BIT { b - SIGN_BIT } else { b };
    if ma > INFINITY_BITS || mb > INFINITY_BITS {
        false
    } else if a >= SIGN_BIT {
        if b >= SIGN_BIT {
            ma >= mb
        } else {
            true
        }
    } else if b >= SIGN_BIT {
        ma == 0 && mb == 0
    } else {
        ma <= mb
    }
}

/// IEEE-754 negation on a bit pattern.
pub fn negate(bits: u64) -> (r: u64)
    ensures
        r == negated(bits),
{
    if bits >= SIGN_BIT {
        bits - SIGN_BIT
    } else {
        bits + SIGN_BIT
    }
}

/// The functions that the global environment provides.
#[derive(Debug, Clone, Copy, PartialEq, Eq, Structural)]
pub enum Builtin {
    /// The wall clock, read by the host.
    Clock,
}

impl Builtin {
    /// The global name of the builtin.
    pub open spec fn name_text(self) -> Seq<char> {
        "clock"@
    }

    /// The global name of the builtin.
    pub fn name(&self) -> (r: &'static str)
        ensures
            r@ == self.name_text(),
    {
        "clock"
    }
}

/// A runtime value. A function value refers into the program it was
/// declared in and names the environment it closes over.
#[derive(Debug)]
#[allow(inconsistent_fields)]
pub enum Object<'a> {
    /// A binary64 number, as its bit pattern.
    Number(u64),
    Boolean(bool),
    String(String),
    Nil,
    /// What a variable declared without an initializer holds.
    Unitialized,
    Function { name: &'a Token, params: &'a Vec<Token>, body: &'a Vec<Stmt>, closure: usize },
    Builtin(Builtin),
}

impl<'a> Clone for Object<'a> {
    fn clone(&self) -> (r: Self)
        ensures
            r == *self,
    {
        match self {
            Object::Number(bits) => Object::Number(*bits),
            Object::Boolean(b) => Object::Boolean(*b),
            Object::String(text) => Object::String(text.clone()),
            Object::Nil => Object::Nil,
            Object::Unitialized => Object::Unitialized,
            Object::Function { name, params, body, closure } => Object::Function {
                name: *name,
                params: *params,
                body: *body,
                closure: *closure,
            },
            Object::Builtin(builtin) => Object::Builtin(*builtin),
        }
    }
}

/// The lexemes of the tokens from `from` on, separated by a comma and a
/// space.
pub open spec fn listed(tokens: Seq<Token>, from: int) -> Seq<char>
    decreases tokens.len() - from,
{
    if from < 0 || from >= tokens.len() {
        Seq::empty()
    } else if from + 1 == tokens.len() {
        tokens[from].lexeme@
    } else {
        tokens[from].lexeme@ + ", "@ + listed(tokens, from + 1)
    }
}

impl<'a> Object<'a> {
    /// How a value prints: a string as its text, `nil` as `nil`, a
    /// function as `fn name(parameter, ...)`, a builtin as its name. A
    /// number is handed to the host.
    pub open spec fn shown(self) -> Piece {
        match self {
            Object::Number(bits) => Piece::Number(bits),
            Object::Boolean(b) => if b {
                Piece::Text("true"@)
            } else {
                Piece::Text("false"@)
            },
            Object::String(text) => Piece::Text(text@),
            Object::Nil => Piece::Text("nil"@),
            Object::Unitialized => Piece::Text("unitialized"@),
            Object::Function { name, params, .. } => Piece::Text(
                "fn "@ + name.lexeme@ + "("@ + listed(params@, 0) + ")"@,
            ),
            Object::Builtin(builtin) => Piece::Text(builtin.name_text()),
        }
    }

    /// How the value prints.
    pub fn interp_to_string(&self) -> (r: Fragment)
        ensures
            r@ == self.shown(),
    {
        match self {
            Object::Number(bits) => Fragment::Number(*bits),
            Object::Boolean(b) => Fragment::Text(
                String::from_str(
                    if *b {
                        "true"
                    } else {
                        "false"
                    },
                ),
            ),
            Object::String(text) => Fragment::Text(text.clone()),
            Object::Nil => Fragment::Text(String::from_str("nil")),
            Object::Unitialized => Fragment::Text(String::from_str("unitialized")),
            Object::Function { name, params, .. } => {
                let mut text = String::from_str("fn ");
                text.append(name.lexeme.as_str());
                text.append("(");
                let ghost head = text@;
                let mut i: usize = 0;
                while i < params.len()
                    invariant
                        i <= params@.len(),
                        text@ + listed(params@, i as int) == head + listed(params@, 0),
                    decreases params@.len() - i,
                {
                    let ghost before = text@;
                    text.append(params[i].lexeme.as_str());
                    if i + 1 < params.len() {
                        text.append(", ");
                    }
                    assert(text@ + listed(params@, i + 1) =~= before + listed(params@, i as int));
                    i = i + 1;
                }
                assert(text@ =~= head + listed(params@, 0));
                text.append(")");
                Fragment::Text(text)
            },
            Object::Builtin(builtin) => Fragment::Text(String::from_str(builtin.name())),
        }
    }

    /// `Nil`, `Unitialized` and `false` are falsey; everything else is
    /// truthy.
    pub open spec fn truthy(self) -> bool {
        match self {
            Object::Nil => false,
            Object::Unitialized => false,
            Object::Boolean(b) => b,
            _ => true,
        }
    }

    /// Equal variants with equal payloads. Numbers compare as IEEE-754
    /// does; a function or builtin equals nothing.
    pub open spec fn equal(self, other: Object<'a>) -> bool {
        match (self, other) {
            (Object::Nil, Object::Nil) => true,
            (Object::Unitialized, Object::Unitialized) => true,
            (Object::Number(a), Object::Number(b)) => number_equal(a, b),
            (Object::Boolean(a), Object::Boolean(b)) => a == b,
            (Object::String(a), Object::String(b)) => a@ == b@,
            _ => false,
        }
    }

    /// Whether the value can be called.
    pub open spec fn callable(self) -> bool {
        self is Function || self is Builtin
    }

    /// The number of arguments a callable takes; 0 for everything else.
    pub open spec fn parameters(self) -> nat {
        match self {
            Object::Function { params, .. } => params@.len(),
            _ => 0,
        }
    }

    /// Whether the value counts as true in a condition.
    pub fn is_thuthy(&self) -> (r: bool)
        ensures
            r == self.truthy(),
    {
        match self {
            Object::Nil => false,
            Object::Unitialized => false,
            Object::Boolean(b) => *b,
            _ => true,
        }
    }

    /// Whether `==` holds of the two values.
    pub fn is_equal(&self, other: &Object<'a>) -> (r: bool)
        ensures
            r == self.equal(*other),
    {
        match (self, other) {
            (Object::Nil, Object::Nil) => true,
            (Object::Unitialized, Object::Unitialized) => true,
            (Object::Number(a), Object::Number(b)) => numbers_equal(*a, *b),
            (Object::Boolean(a), Object::Boolean(b)) => *a == *b,
            (Object::String(a), Object::String(b)) => *a == *b,
            _ => false,
        }
    }
}

/// The items of `arr`, separated by a comma and a space.
pub open spec fn comma_separated(arr: Seq<String>) -> Seq<char>
    decreases arr.len(),
{
    if arr.len() == 0 {
        Seq::empty()
    } else if arr.len() == 1 {
        arr[0]@
    } else {
        comma_separated(arr.drop_last()) + ", "@ + arr.last()@
    }
}

/// Joins the items with a comma and a space.
pub fn csv_str(arr: &[String]) -> (r: String)
    ensures
        r@ == comma_separated(arr@),
{
    let mut r = String::new();
    let mut i: usize = 0;
    while i < arr.len()
        invariant
            i <= arr@.len(),
            r@ == comma_separated(arr@.subrange(0, i as int)),
        decreases arr@.len() - i,
    {
        if i > 0 {
            r.append(", ");
        }
        r.append(arr[i].as_str());
        proof {
            let before = arr@.subrange(0, i as int);
            let now = arr@.subrange(0, i + 1);
            assert(now.drop_last() =~= before);
            assert(now.last() == arr@[i as int]);
            if i == 0 {
                assert(r@ =~= arr@[0]@);
            }
        }
        i = i + 1;
    }
    assert(arr@.subrange(0, i as int) =~= arr@);
    r
}

} // verus!
