//! The languages the site has content for.

use vstd::prelude::*;
use crate::path::{first_segment, segment};
use crate::tag::{canonical, lemma_canonical_fixed, LanguageTag};
use crate::text::{chars_of, lower};

verus! {

/// A language the site has content for. The codes of `code` are the one table
/// that maps languages to strings and back.
#[derive(Debug, Clone, Copy, PartialEq, Eq, Hash, Structural)]
pub enum Lang {
    En,
    Fr,
    De,
    He,
}

impl Lang {
    /// The language's code: a canonical two-letter tag.
    pub open spec fn code(self) -> Seq<char> {
        match self {
            Lang::En => seq!['e', 'n'],
            Lang::Fr => seq!['f', 'r'],
            Lang::De => seq!['d', 'e'],
            Lang::He => seq!['h', 'e'],
        }
    }

    /// The language whose code is `code`, if there is one.
    pub open spec fn of_code(code: Seq<char>) -> Option<Lang> {
        if code == Lang::En.code() {
            Some(Lang::En)
        } else if code == Lang::Fr.code() {
            Some(Lang::Fr)
        } else if code == Lang::De.code() {
            Some(Lang::De)
        } else if code == Lang::He.code() {
            Some(Lang::He)
        } else {
            None
        }
    }

    /// `of_code` undoes `code`, and the four codes differ.
    pub proof fn lemma_code_round_trip(self)
        ensures
            Lang::of_code(self.code()) == Some(self),
    {
        assert(Lang::En.code()[0] == 'e' && Lang::En.code()[1] == 'n');
        assert(Lang::Fr.code()[0] == 'f');
        assert(Lang::De.code()[0] == 'd');
        assert(Lang::He.code()[0] == 'h');
    }

    /// The language's code.
    pub fn as_str(&self) -> (s: &'static str)
        ensures
            s@ == self.code(),
    {
        proof {
            reveal_strlit("en");
            reveal_strlit("fr");
            reveal_strlit("de");
            reveal_strlit("he");
            assert("en"@ =~= Lang::En.code());
            assert("fr"@ =~= Lang::Fr.code());
            assert("de"@ =~= Lang::De.code());
            assert("he"@ =~= Lang::He.code());
        }
        match self {
            Lang::En => "en",
            Lang::Fr => "fr",
            Lang::De => "de",
            Lang::He => "he",
        }
    }

    /// The language whose code is exactly the given characters.
    pub fn from_chars(code: &[char]) -> (r: Option<Lang>)
        ensures
            r == Lang::of_code(code@),
    {
        if code.len() != 2 {
            return None;
        }
        let a = code[0];
        let b = code[1];
        let found = if a == 'e' && b == 'n' {
            Some(Lang::En)
        } else if a == 'f' && b == 'r' {
            Some(Lang::Fr)
        } else if a == 'd' && b == 'e' {
            Some(Lang::De)
        } else if a == 'h' && b == 'e' {
            Some(Lang::He)
        } else {
            None
        };
        proof {
            assert(code@ =~= seq![a, b]);
            assert(Lang::En.code()[0] == 'e' && Lang::En.code()[1] == 'n');
            assert(Lang::Fr.code()[0] == 'f' && Lang::Fr.code()[1] == 'r');
            assert(Lang::De.code()[0] == 'd' && Lang::De.code()[1] == 'e');
            assert(Lang::He.code()[0] == 'h' && Lang::He.code()[1] == 'e');
        }
        found
    }

    /// Looks a code up in the table. The code must match exactly: nothing is
    /// trimmed or lower-cased. An unknown code comes back as the error.
    pub fn from_str(lang_str: &str) -> (r: Result<Lang, &str>)
        ensures
            match Lang::of_code(lang_str@) {
                Some(lang) => r == Ok::<Lang, &str>(lang),
                None => r == Err::<Lang, &str>(lang_str),
            },
    {
        let chars = chars_of(lang_str);
        match Lang::from_chars(chars.as_slice()) {
            Some(lang) => Ok(lang),
            None => Err(lang_str),
        }
    }

    /// The language of a tag, where the site has content for it.
    pub fn from_tag(tag: &LanguageTag) -> (r: Option<Lang>)
        ensures
            r == Lang::of_code(tag@),
    {
        let chars = chars_of(tag.as_str());
        Lang::from_chars(chars.as_slice())
    }

    /// The language that a request is for: that of the first segment of its
    /// path, in canonical form. A path that starts with no language of the table
    /// comes back as the error.
    pub fn from_request(path: &str) -> (r: Result<Lang, String>)
        ensures
            match Lang::of_code(canonical(first_segment(path@))) {
                Some(lang) => r == Ok::<Lang, String>(lang),
                None => r matches Err(rejected) && rejected@ == path@,
            },
    {
        let chars = chars_of(path);
        let tag = LanguageTag::from_chars(segment(chars.as_slice()));
        match Lang::from_tag(&tag) {
            Some(lang) => Ok(lang),
            None => Err(path.to_owned()),
        }
    }

    /// The language's tag.
    pub fn tag(&self) -> (tag: LanguageTag)
        ensures
            tag@ == self.code(),
    {
        let tag = LanguageTag::parse(self.as_str());
        proof {
            self.lemma_code_canonical();
        }
        tag
    }

    /// Each code is in canonical form.
    pub proof fn lemma_code_canonical(self)
        ensures
            canonical(self.code()) == self.code(),
    {
        let c = self.code();
        assert forall|i: int| 0 <= i < c.len() implies c[i] != '-' && lower(#[trigger] c[i])
            == c[i] by {}
        lemma_canonical_fixed(c);
    }
}

impl AsRef<str> for Lang {
    fn as_ref(&self) -> (s: &str)
        ensures
            s@ == self.code(),
    {
        self.as_str()
    }
}

impl Default for Lang {
    /// English is the language of last resort.
    fn default() -> (lang: Lang)
        ensures
            lang == Lang::En,
    {
        Lang::En
    }
}

} // verus!
