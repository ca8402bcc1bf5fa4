//! What this library relies on from `compact_str::CompactString`.
use compact_str::CompactString;
use vstd::prelude::*;

verus! {

/// `compact_str::CompactString`: an owned UTF-8 string that keeps short texts inline.
#[verifier::external_type_specification]
#[verifier::external_body]
pub struct ExCompactString(CompactString);

/// The characters that a `CompactString` holds, in order.
pub uninterp spec fn chars_of(s: CompactString) -> Seq<char>;

/// `<CompactString as From<&str>>::from`: the new string holds exactly the characters of `s`.
pub assume_specification<'a>[ <CompactString as From<&'a str>>::from ](s: &'a str) -> (r:
    CompactString)
    ensures
        chars_of(r) == s@,
;

/// `CompactString::push_str`: the characters of `s` are appended to those already held.
pub assume_specification[ CompactString::push_str ](this: &mut CompactString, s: &str)
    ensures
        chars_of(*final(this)) == chars_of(*old(this)) + s@,
;

/// `CompactString::as_str`: the slice returned holds the same characters as the string.
pub assume_specification<'a>[ CompactString::as_str ](this: &'a CompactString) -> (r: &'a str)
    ensures
        r@ == chars_of(*this),
;

/// `<CompactString as Clone>::clone`: the copy holds the same characters as the string it
/// was made from.
pub assume_specification[ <CompactString as Clone>::clone ](this: &CompactString) -> (r:
    CompactString)
    ensures
        chars_of(r) == chars_of(*this),
;

} // verus!
