//! Arguments of procedures.

use logos::Span;
use smol_str::SmolStr;
use vstd::prelude::*;

use super::type_::Type;
use crate::text::smol_chars;

verus! {

/// An argument as a plain value.
pub struct ArgView {
    pub name: Seq<char>,
    pub span: Span,
    pub type_: Seq<char>,
    pub is_used: bool,
}

/// The names of the arguments, in declaration order.
pub open spec fn argument_names(args: Seq<ArgView>) -> Seq<Seq<char>> {
    Seq::new(args.len(), |i: int| args[i].name)
}

/// One argument of a procedure.
#[derive(Debug)]
pub struct Arg {
    pub name: SmolStr,
    pub span: Span,
    pub type_: Type,
    pub is_used: bool,
}

impl View for Arg {
    type V = ArgView;

    open spec fn view(&self) -> ArgView {
        ArgView {
            name: smol_chars(self.name),
            span: self.span,
            type_: self.type_@,
            is_used: self.is_used,
        }
    }
}

impl Arg {
    /// An argument that nothing has referred to yet.
    pub fn new(name: SmolStr, span: Span, type_: Type) -> (arg: Self)
        ensures
            arg@ == (ArgView { name: smol_chars(name), span, type_: type_@, is_used: false }),
    {
        Self { name, span, type_, is_used: false }
    }
}

} // verus!
