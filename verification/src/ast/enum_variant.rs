//! Variants of enumerations.

use logos::Span;
use smol_str::SmolStr;
use vstd::prelude::*;

use super::value::Value;
use crate::text::smol_chars;

verus! {

/// An enum variant as a plain value.
pub struct EnumVariantView {
    pub name: Seq<char>,
    pub span: Span,
    pub value: Option<(Seq<char>, Span)>,
    pub is_used: bool,
}

/// One variant of an enumeration.
#[derive(Debug)]
pub struct EnumVariant {
    pub name: SmolStr,
    pub span: Span,
    pub value: Option<(Value, Span)>,
    pub is_used: bool,
}

/// The plain value of a variant's literal and the place where it stands.
pub open spec fn value_view(value: Option<(Value, Span)>) -> Option<(Seq<char>, Span)> {
    match value {
        Some((value, span)) => Some((value@, span)),
        None => None,
    }
}

impl View for EnumVariant {
    type V = EnumVariantView;

    open spec fn view(&self) -> EnumVariantView {
        EnumVariantView {
            name: smol_chars(self.name),
            span: self.span,
            value: value_view(self.value),
            is_used: self.is_used,
        }
    }
}

impl EnumVariant {
    /// A variant that nothing has referred to yet.
    pub fn new(name: SmolStr, span: Span, value: Option<(Value, Span)>) -> (variant: Self)
        ensures
            variant@ == (EnumVariantView {
                name: smol_chars(name),
                span,
                value: value_view(value),
                is_used: false,
            }),
    {
        Self { name, span, value, is_used: false }
    }
}

} // verus!
