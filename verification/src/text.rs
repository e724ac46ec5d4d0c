//! The small-string type that names are kept in, as verified code sees it.

use smol_str::SmolStr;
use vstd::prelude::*;

verus! {

/// `smol_str::SmolStr`, an immutable string. Nothing is known of a value of
/// it but the characters that it holds.
#[verifier::external_type_specification]
#[verifier::external_body]
pub struct ExSmolStr(SmolStr);

/// The characters that a `SmolStr` holds, in order.
pub uninterp spec fn smol_chars(s: SmolStr) -> Seq<char>;

/// `SmolStr::as_str`: the returned slice holds exactly the characters of the
/// string, whichever of its representations (inline, static, heap) stores
/// them.
pub assume_specification<'a>[ SmolStr::as_str ](s: &'a SmolStr) -> (text: &'a str)
    ensures
        text@ == smol_chars(*s),
;

/// `<SmolStr as Clone>::clone`: the copy holds the characters of the string
/// it was made from.
pub assume_specification[ <SmolStr as Clone>::clone ](s: &SmolStr) -> (copy: SmolStr)
    ensures
        smol_chars(copy) == smol_chars(*s),
;

/// `str::eq`, the `==` of string slices: two slices are equal exactly when
/// they hold the same characters.
#[verifier::external_body]
pub(crate) fn str_eq(a: &str, b: &str) -> (equal: bool)
    ensures
        equal == (a@ == b@),
{
    a == b
}

} // verus!
