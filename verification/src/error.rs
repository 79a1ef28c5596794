//! The error returned when a textual setting names no known value.
use vstd::prelude::*;

verus! {

/// A textual value that names none of the accepted choices, with a message that lists them.
#[derive(Debug, Clone)]
pub struct ParseError {
    pub message: String,
}

impl ParseError {
    /// The human-readable message.
    pub fn message(&self) -> (r: &str)
        ensures
            r@ == self.message@,
    {
        self.message.as_str()
    }
}

/// Builds `prefix + value + suffix` as a `String`.
pub fn framed_message(prefix: &str, value: &str, suffix: &str) -> (r: String)
    ensures
        r@ == prefix@ + value@ + suffix@,
{
    let mut v = crate::text::chars_of(prefix);
    let w = crate::text::chars_of(value);
    crate::text::append_chars(&mut v, &w);
    let x = crate::text::chars_of(suffix);
    crate::text::append_chars(&mut v, &x);
    crate::text::string_of(&v)
}

/// Builds `prefix + value` as a `String`.
pub fn prefixed_message(prefix: &str, value: &str) -> (r: String)
    ensures
        r@ == prefix@ + value@,
{
    let mut v = crate::text::chars_of(prefix);
    let w = crate::text::chars_of(value);
    crate::text::append_chars(&mut v, &w);
    crate::text::string_of(&v)
}

} // verus!
