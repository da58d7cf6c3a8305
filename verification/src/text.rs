//! Building strings.

use vstd::prelude::*;

verus! {

/// `String::push_str` of std: the text is appended to the string.
#[verifier::external_body]
pub(crate) fn append(text: &mut String, tail: &str)
    ensures
        final(text)@ == old(text)@ + tail@,
{
    text.push_str(tail)
}

/// What `{:?}` of std writes for a text: the text between double quotes,
/// with the characters that cannot stand there as they are written as
/// escapes.
pub uninterp spec fn quoted(text: Seq<char>) -> Seq<char>;

/// `format!` of std with `{:?}`: the quoted form of the text.
#[verifier::external_body]
pub(crate) fn quote(text: &str) -> (r: String)
    ensures
        r@ == quoted(text@),
{
    format!("{:?}", text)
}

} // verus!
