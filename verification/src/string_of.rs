//! A string that must hold one well-known value.
use vstd::prelude::*;
use crate::text::str_eq;

verus! {

/// A string read where one well-known value is expected.
#[derive(Debug)]
pub struct StringOf(pub String);

impl StringOf {
    /// Accepts `value` exactly when it is the `expected` string.
    pub fn check(expected: &str, value: String) -> (r: Option<StringOf>)
        ensures
            value@ == expected@ ==> (r matches Some(s) && s.0@ == value@),
            value@ != expected@ ==> r is None,
    {
        if str_eq(value.as_str(), expected) {
            Some(StringOf(value))
        } else {
            None
        }
    }
}

} // verus!
