//! Literal values.

use vstd::prelude::*;

verus! {

/// A literal value. Code generation asks nothing of it but its text.
#[derive(Debug)]
pub struct Value {
    pub text: String,
}

impl View for Value {
    type V = Seq<char>;

    open spec fn view(&self) -> Seq<char> {
        self.text@
    }
}

impl Value {
    /// The value that is written as `text`.
    pub fn new(text: String) -> (value: Self)
        ensures
            value@ == text@,
    {
        Self { text }
    }

    /// The text of the value.
    pub fn as_str(&self) -> (text: &str)
        ensures
            text@ == self@,
    {
        self.text.as_str()
    }
}

} // verus!
