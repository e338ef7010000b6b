//! Language identifiers as the message catalogue takes them.
//!
//! The catalogue is asked by `unic_langid::LanguageIdentifier`. This module makes
//! one from a language code; it is the one place where the library calls
//! `unic_langid`.

use unic_langid::LanguageIdentifier;
use vstd::prelude::*;

verus! {

/// `unic_langid::LanguageIdentifier`, carried through as it is: nothing is known
/// of what is in it.
#[verifier::external_type_specification]
#[verifier::external_body]
pub struct ExLanguageIdentifier(LanguageIdentifier);

/// Tells whether `code` is made of two ASCII letters.
pub open spec fn is_two_letters(code: Seq<char>) -> bool {
    &&& code.len() == 2
    &&& forall|i: int|
        0 <= i < 2 ==> ('a' <= #[trigger] code[i] && code[i] <= 'z') || ('A' <= code[i] && code[i]
            <= 'Z')
}

/// The identifier that `unic_langid` reads from a text; `None` where the text is
/// not a well-formed identifier. This is a name for the result of
/// `LanguageIdentifier::from_str`.
pub uninterp spec fn language_identifier(code: Seq<char>) -> Option<LanguageIdentifier>;

/// Calls `LanguageIdentifier::from_str` of `unic_langid`. The contract claims
/// that the result is a function of the text, the named `language_identifier`,
/// and that two ASCII letters are always read: the parser takes a language
/// subtag of two to eight letters, but not of four, and asks for nothing behind
/// it.
#[verifier::external_body]
pub(crate) fn identifier_of(code: &str) -> (id: Option<LanguageIdentifier>)
    ensures
        id == language_identifier(code@),
        is_two_letters(code@) ==> id is Some,
{
    code.parse().ok()
}

} // verus!
