//! The character classes of the scanner.

use vstd::prelude::*;

verus! {

/// ASCII letters and the underscore.
pub open spec fn alpha(c: char) -> bool {
    ('a' <= c && c <= 'z') || ('A' <= c && c <= 'Z') || c == '_'
}

/// ASCII decimal digits.
pub open spec fn digit(c: char) -> bool {
    '0' <= c && c <= '9'
}

/// The characters an identifier may continue with.
pub open spec fn alpha_numeric(c: char) -> bool {
    alpha(c) || digit(c)
}

/// Whether `c` is an ASCII decimal digit.
pub fn is_digit(c: char) -> (r: bool)
    ensures
        r == digit(c),
{
    c >= '0' && c <= '9'
}

/// Character classes of the scanner; identifiers are ASCII only.
pub trait CharExtensions {
    fn is_alpha_numeric(&self) -> bool;

    fn is_alpha(&self) -> bool;
}

impl CharExtensions for char {
    fn is_alpha_numeric(&self) -> (r: bool)
        ensures
            r == alpha_numeric(*self),
    {
        self.is_alpha() || is_digit(*self)
    }

    fn is_alpha(&self) -> (r: bool)
        ensures
            r == alpha(*self),
    {
        (*self >= 'a' && *self <= 'z') || (*self >= 'A' && *self <= 'Z') || *self == '_'
    }
}

} // verus!
