//! Language tags in canonical form.

use vstd::prelude::*;
use crate::text::{
    before, chars_of, first_index, lemma_first_index, lemma_first_index_is, lower, lower_all,
    position, to_lower,
};

verus! {

/// The canonical form of a raw tag: its primary subtag, lower-cased. Whatever
/// follows the first `-` (region, script) is dropped.
pub open spec fn canonical(raw: Seq<char>) -> Seq<char> {
    lower_all(before(raw, '-'))
}

/// A sequence is canonical when canonicalization leaves it as it is: it holds
/// no `-` and no upper-case ASCII letter.
pub open spec fn is_canonical(s: Seq<char>) -> bool {
    forall|i: int| 0 <= i < s.len() ==> s[i] != '-' && lower(#[trigger] s[i]) == s[i]
}

/// What `canonical` returns is canonical.
pub proof fn lemma_canonical_is_canonical(raw: Seq<char>)
    ensures
        is_canonical(canonical(raw)),
{
    lemma_first_index(raw, '-');
}

/// Canonicalization leaves a canonical sequence unchanged.
pub proof fn lemma_canonical_fixed(s: Seq<char>)
    requires
        is_canonical(s),
    ensures
        canonical(s) == s,
{
    lemma_first_index_is(s, '-', s.len() as int);
    assert(before(s, '-') =~= s);
    assert(canonical(s) =~= s);
}

/// A canonicalized primary language subtag, such as `en` or `fr`.
///
/// Two tags are equal when their canonical strings are.
#[derive(Debug, Hash)]
pub struct LanguageTag {
    subtag: String,
}

impl View for LanguageTag {
    type V = Seq<char>;

    closed spec fn view(&self) -> Seq<char> {
        self.subtag@
    }
}

impl LanguageTag {
    /// Holds of every tag: its string is in canonical form.
    #[verifier::type_invariant]
    pub open spec fn wf(self) -> bool {
        is_canonical(self@)
    }

    /// Canonicalizes a raw tag. Every input gives a tag; whether the deployment
    /// supports it is for the caller to check.
    pub fn parse(raw: &str) -> (tag: LanguageTag)
        ensures
            tag@ == canonical(raw@),
    {
        let chars = chars_of(raw);
        LanguageTag::from_chars(chars.as_slice())
    }

    /// Canonicalizes a raw tag given as characters.
    pub fn from_chars(raw: &[char]) -> (tag: LanguageTag)
        ensures
            tag@ == canonical(raw@),
    {
        let k = position(raw, '-');
        let mut subtag = String::new();
        let mut i: usize = 0;
        while i < k
            invariant
                i <= k <= raw.len(),
                k == first_index(raw@, '-'),
                subtag@ == lower_all(raw@.take(i as int)),
            decreases k - i,
        {
            subtag.push(to_lower(raw[i]));
            proof {
                assert(lower_all(raw@.take(i as int)).push(lower(raw@[i as int])) =~= lower_all(
                    raw@.take(i + 1),
                ));
            }
            i += 1;
        }
        proof {
            lemma_canonical_is_canonical(raw@);
        }
        LanguageTag { subtag }
    }

    /// The canonical string.
    pub fn as_str(&self) -> (s: &str)
        ensures
            s@ == self@,
            is_canonical(s@),
    {
        proof {
            use_type_invariant(self);
        }
        self.subtag.as_str()
    }

}

impl PartialEq for LanguageTag {
    fn eq(&self, other: &LanguageTag) -> (r: bool) {
        self.subtag == other.subtag
    }
}

impl Eq for LanguageTag {

}

impl vstd::std_specs::cmp::PartialEqSpecImpl for LanguageTag {
    open spec fn obeys_eq_spec() -> bool {
        true
    }

    open spec fn eq_spec(&self, other: &LanguageTag) -> bool {
        self@ == other@
    }
}

impl Clone for LanguageTag {
    fn clone(&self) -> (r: LanguageTag)
        ensures
            r@ == self@,
    {
        proof {
            use_type_invariant(self);
        }
        LanguageTag { subtag: self.subtag.clone() }
    }
}

} // verus!
