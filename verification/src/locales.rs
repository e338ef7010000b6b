//! The set of languages a deployment serves.

use vstd::prelude::*;
use crate::tag::{is_canonical, LanguageTag};

verus! {

/// Why a set of supported languages could not be built.
#[derive(Debug, Clone, Copy, PartialEq, Eq, Structural)]
pub enum ConfigurationError {
    /// No language was given.
    EmptySet,
    /// The default language is not one of the languages given.
    DefaultNotSupported,
}

/// What a `SupportedLocaleSet` stands for: the tags served and the default among them.
pub ghost struct SupportedView {
    pub tags: Set<Seq<char>>,
    pub default_tag: Seq<char>,
}

impl SupportedView {
    /// A set is valid when it is finite, holds its default (so it is not empty) and
    /// all its tags are canonical.
    pub open spec fn valid(self) -> bool {
        &&& self.tags.finite()
        &&& self.tags.contains(self.default_tag)
        &&& forall|t: Seq<char>| self.tags.contains(t) ==> is_canonical(t)
    }
}

/// The canonical strings of a list of tags, in order.
pub open spec fn tag_names(tags: Seq<LanguageTag>) -> Seq<Seq<char>> {
    Seq::new(tags.len(), |i: int| tags[i]@)
}

/// The canonical strings of a list of tags, as a set.
pub open spec fn tag_set(tags: Seq<LanguageTag>) -> Set<Seq<char>> {
    tag_names(tags).to_set()
}

/// The languages a deployment serves, and the one it falls back to. Built once
/// and never changed.
#[derive(Debug)]
pub struct SupportedLocaleSet {
    tags: Vec<LanguageTag>,
    default_tag: LanguageTag,
}

impl View for SupportedLocaleSet {
    type V = SupportedView;

    closed spec fn view(&self) -> SupportedView {
        SupportedView { tags: tag_set(self.tags@), default_tag: self.default_tag@ }
    }
}

impl SupportedLocaleSet {
    /// Holds of every set: no tag is listed twice, the default is listed, and every
    /// tag is canonical.
    #[verifier::type_invariant]
    pub closed spec fn wf(self) -> bool {
        &&& tag_names(self.tags@).no_duplicates()
        &&& tag_names(self.tags@).contains(self.default_tag@)
        &&& forall|i: int| 0 <= i < self.tags@.len() ==> is_canonical(#[trigger] self.tags@[i]@)
    }

    /// A well-formed set stands for a valid view.
    pub proof fn lemma_valid(self)
        requires
            self.wf(),
        ensures
            self@.valid(),
    {
        let names = tag_names(self.tags@);
        vstd::seq_lib::seq_to_set_is_finite(names);
        assert forall|t: Seq<char>| self@.tags.contains(t) implies is_canonical(t) by {
            let i = choose|i: int| 0 <= i < names.len() && names[i] == t;
            assert(is_canonical(self.tags@[i]@));
        }
    }

    /// Builds the set from the languages served and the default among them.
    /// Repeated tags count once.
    ///
    /// Fails with `EmptySet` where no language is given, and with
    /// `DefaultNotSupported` where languages are given and the default is not one
    /// of them.
    pub fn new(
        tags: Vec<LanguageTag>,
        default_tag: LanguageTag,
    ) -> (r: Result<SupportedLocaleSet, ConfigurationError>)
        ensures
            match r {
                Ok(set) => {
                    &&& tags@.len() > 0
                    &&& tag_set(tags@).contains(default_tag@)
                    &&& set@.tags == tag_set(tags@)
                    &&& set@.default_tag == default_tag@
                    &&& set@.valid()
                },
                Err(ConfigurationError::EmptySet) => tags@.len() == 0,
                Err(ConfigurationError::DefaultNotSupported) => {
                    &&& tags@.len() > 0
                    &&& !tag_set(tags@).contains(default_tag@)
                },
            },
    {
        if tags.len() == 0 {
            return Err(ConfigurationError::EmptySet);
        }
        let mut kept: Vec<LanguageTag> = Vec::new();
        let mut i: usize = 0;
        while i < tags.len()
            invariant
                i <= tags.len(),
                tag_names(kept@).no_duplicates(),
                tag_set(kept@) == tag_set(tags@.take(i as int)),
                forall|j: int| 0 <= j < kept@.len() ==> is_canonical(#[trigger] kept@[j]@),
            decreases tags.len() - i,
        {
            let tag = &tags[i];
            let ghost before_kept = kept@;
            if !listed(&kept, tag) {
                let copy = tag.clone();
                proof {
                    use_type_invariant(&copy);
                }
                kept.push(copy);
                proof {
                    assert(tag_names(kept@) =~= tag_names(before_kept).push(tag@));
                }
            }
            proof {
                let done = tags@.take(i as int);
                let next = tags@.take(i + 1);
                assert(tag_names(next) =~= tag_names(done).push(tag@));
                assert(tag_set(kept@) =~= tag_set(next)) by {
                    assert forall|t: Seq<char>| tag_set(kept@).contains(t) <==> tag_set(
                        next,
                    ).contains(t) by {
                        lemma_push_contains(tag_names(done), tag@, t);
                        if tag_names(kept@) != tag_names(before_kept) {
                            lemma_push_contains(tag_names(before_kept), tag@, t);
                        }
                        assert(tag_set(before_kept).contains(t) <==> tag_set(done).contains(t));
                    }
                }
            }
            i += 1;
        }
        proof {
            assert(tags@.take(tags@.len() as int) =~= tags@);
        }
        if !listed(&kept, &default_tag) {
            return Err(ConfigurationError::DefaultNotSupported);
        }
        let set = SupportedLocaleSet { tags: kept, default_tag };
        proof {
            set.lemma_valid();
        }
        Ok(set)
    }

    /// Tells whether the deployment serves `tag`.
    pub fn contains(&self, tag: &LanguageTag) -> (r: bool)
        ensures
            r == self@.tags.contains(tag@),
    {
        listed(&self.tags, tag)
    }

    /// The language to fall back to. It is one of the languages served.
    pub fn default(&self) -> (tag: &LanguageTag)
        ensures
            tag@ == self@.default_tag,
            self@.tags.contains(tag@),
    {
        proof {
            use_type_invariant(self);
        }
        &self.default_tag
    }

    /// The number of languages served.
    pub fn len(&self) -> (n: usize)
        ensures
            n == self@.tags.len(),
            n > 0,
    {
        proof {
            use_type_invariant(self);
            tag_names(self.tags@).unique_seq_to_set();
        }
        self.tags.len()
    }
}

impl Clone for SupportedLocaleSet {
    fn clone(&self) -> (r: SupportedLocaleSet)
        ensures
            r@ == self@,
    {
        proof {
            use_type_invariant(self);
        }
        let mut tags: Vec<LanguageTag> = Vec::new();
        let mut i: usize = 0;
        while i < self.tags.len()
            invariant
                i <= self.tags.len(),
                tag_names(tags@) == tag_names(self.tags@.take(i as int)),
                forall|j: int| 0 <= j < tags@.len() ==> is_canonical(#[trigger] tags@[j]@),
            decreases self.tags.len() - i,
        {
            let ghost before_tags = tags@;
            let copy = self.tags[i].clone();
            proof {
                use_type_invariant(&copy);
            }
            tags.push(copy);
            proof {
                assert(tag_names(tags@) =~= tag_names(before_tags).push(self.tags@[i as int]@));
                assert(tag_names(self.tags@.take(i + 1)) =~= tag_names(
                    self.tags@.take(i as int),
                ).push(self.tags@[i as int]@));
            }
            i += 1;
        }
        proof {
            assert(self.tags@.take(self.tags@.len() as int) =~= self.tags@);
        }
        SupportedLocaleSet { tags, default_tag: self.default_tag.clone() }
    }
}

/// An element is in `s.push(x)` when it is in `s` or is `x`.
proof fn lemma_push_contains(s: Seq<Seq<char>>, x: Seq<char>, t: Seq<char>)
    ensures
        s.push(x).contains(t) <==> s.contains(t) || t == x,
{
    if s.contains(t) {
        let i = choose|i: int| 0 <= i < s.len() && s[i] == t;
        assert(s.push(x)[i] == t);
    }
    if t == x {
        assert(s.push(x)[s.len() as int] == t);
    }
}

/// Tells whether `tag` is among `tags`.
fn listed(tags: &Vec<LanguageTag>, tag: &LanguageTag) -> (r: bool)
    ensures
        r == tag_names(tags@).contains(tag@),
{
    let mut i: usize = 0;
    while i < tags.len()
        invariant
            i <= tags.len(),
            forall|j: int| 0 <= j < i ==> tags@[j]@ != tag@,
        decreases tags.len() - i,
    {
        if &tags[i] == tag {
            assert(tag_names(tags@)[i as int] == tag@);
            return true;
        }
        i += 1;
    }
    false
}

} // verus!
