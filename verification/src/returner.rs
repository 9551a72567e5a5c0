//! The value of a `return` in flight.

use vstd::prelude::*;
use crate::object::Object;

verus! {

/// The value of a `return` on its way to the call that it ends. Each
/// interpreter owns one; at most one return is in flight at a time.
#[derive(Debug)]
pub struct Return<'a> {
    value: Option<Object<'a>>,
}

impl<'a> View for Return<'a> {
    type V = Option<Object<'a>>;

    closed spec fn view(&self) -> Option<Object<'a>> {
        self.value
    }
}

impl<'a> Return<'a> {
    /// A holder with nothing in flight.
    pub fn new() -> (r: Self)
        ensures
            r@ is None,
    {
        Return { value: None }
    }

    /// Takes the value in flight; `Nil` where there is none. Nothing is in
    /// flight afterwards.
    pub fn get(&mut self) -> (r: Object<'a>)
        ensures
            r == landed(old(self)@),
            final(self)@ is None,
    {
        match self.value.take() {
            Some(value) => value,
            None => Object::Nil,
        }
    }

    /// Puts `value` in flight, in place of what was there.
    pub fn add(&mut self, value: Object<'a>)
        ensures
            final(self)@ == Some(value),
    {
        self.value = Some(value);
    }
}

/// What a call yields for the value in flight: the value, or `Nil`.
pub open spec fn landed<'a>(value: Option<Object<'a>>) -> Object<'a> {
    match value {
        Some(value) => value,
        None => Object::Nil,
    }
}

} // verus!
