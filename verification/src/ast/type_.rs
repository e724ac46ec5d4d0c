//! Resolved types.

use vstd::prelude::*;

verus! {

/// A resolved type. Code generation asks nothing of it but its text.
#[derive(Debug)]
pub struct Type {
    pub text: String,
}

impl View for Type {
    type V = Seq<char>;

    open spec fn view(&self) -> Seq<char> {
        self.text@
    }
}

impl Type {
    /// The type that is written as `text`.
    pub fn new(text: String) -> (type_: Self)
        ensures
            type_@ == text@,
    {
        Self { text }
    }

    /// The text of the type.
    pub fn as_str(&self) -> (text: &str)
        ensures
            text@ == self@,
    {
        self.text.as_str()
    }
}

} // verus!
