//! What the pages show, gathered from the message catalogue.
//!
//! The catalogue is not part of this library. It is handed in as a function from
//! a language identifier and a message key to the message, if the catalogue has
//! one. The contracts here say which key fills which field, in terms of what that
//! function returns.

use unic_langid::LanguageIdentifier;
use vstd::prelude::*;
use crate::identifier::{identifier_of, is_two_letters, language_identifier};
use crate::langs::Lang;

verus! {

/// `catalog` may return `text` as the message under `key` in `lang`.
pub open spec fn gives<F: Fn(&LanguageIdentifier, &str) -> Option<String>>(
    catalog: F,
    lang: Lang,
    key: &str,
    text: String,
) -> bool {
    language_identifier(lang.code()) matches Some(id) && call_ensures(
        catalog,
        (&id, key),
        Some(text),
    )
}

/// `catalog` may have no message under `key` in `lang`.
pub open spec fn lacks<F: Fn(&LanguageIdentifier, &str) -> Option<String>>(
    catalog: F,
    lang: Lang,
    key: &str,
) -> bool {
    language_identifier(lang.code()) matches Some(id) && call_ensures(
        catalog,
        (&id, key),
        None::<String>,
    )
}

/// `catalog` can be asked for any key in any language.
pub open spec fn serves<F: Fn(&LanguageIdentifier, &str) -> Option<String>>(catalog: F) -> bool {
    forall|id: &LanguageIdentifier, key: &str| call_requires(catalog, (id, key))
}

/// Looks one message up: what the catalogue returns under `title` for the
/// identifier of `lang`.
pub fn msg_get<F: Fn(&LanguageIdentifier, &str) -> Option<String>>(
    catalog: &F,
    title: &str,
    lang: &Lang,
) -> (message: Option<String>)
    requires
        serves(*catalog),
    ensures
        message matches Some(text) ==> gives(*catalog, *lang, title, text),
        message is None ==> lacks(*catalog, *lang, title),
{
    proof {
        lemma_codes_are_two_letters(*lang);
    }
    match identifier_of(lang.as_str()) {
        Some(id) => catalog(&id, title),
        None => None,
    }
}

/// Each language's code is made of two ASCII letters.
proof fn lemma_codes_are_two_letters(lang: Lang)
    ensures
        is_two_letters(lang.code()),
{
    let code = lang.code();
    assert forall|i: int| 0 <= i < 2 implies ('a' <= #[trigger] code[i] && code[i] <= 'z') || ('A'
        <= code[i] && code[i] <= 'Z') by {
        if i == 0 {
        } else {
            assert(i == 1);
        }
    }
}

/// The messages of the about page.
#[derive(Debug, PartialEq, Eq)]
pub struct AboutTemplate {
    pub body_title: String,
    pub title_byline: String,
    pub intro_title: String,
    pub intro_content: String,
    pub our_approach_title: String,
    pub our_approach_content: String,
    pub why_us_title: String,
    pub why_us_content: String,
}

impl AboutTemplate {
    /// Gathers the messages of the about page in `lang`. Each field is filled
    /// from the key of its own name. `None` where the catalogue lacks one of them.
    pub fn fetch_lang<F: Fn(&LanguageIdentifier, &str) -> Option<String>>(
        lang: &Lang,
        catalog: &F,
    ) -> (page: Option<AboutTemplate>)
        requires
            serves(*catalog),
        ensures
            match page {
                Some(page) => {
                    &&& gives(*catalog, *lang, "body_title", page.body_title)
                    &&& gives(*catalog, *lang, "title_byline", page.title_byline)
                    &&& gives(*catalog, *lang, "intro_title", page.intro_title)
                    &&& gives(*catalog, *lang, "intro_content", page.intro_content)
                    &&& gives(*catalog, *lang, "our_approach_title", page.our_approach_title)
                    &&& gives(*catalog, *lang, "our_approach_content", page.our_approach_content)
                    &&& gives(*catalog, *lang, "why_us_title", page.why_us_title)
                    &&& gives(*catalog, *lang, "why_us_content", page.why_us_content)
                },
                None => {
                    ||| lacks(*catalog, *lang, "body_title")
                    ||| lacks(*catalog, *lang, "title_byline")
                    ||| lacks(*catalog, *lang, "intro_title")
                    ||| lacks(*catalog, *lang, "intro_content")
                    ||| lacks(*catalog, *lang, "our_approach_title")
                    ||| lacks(*catalog, *lang, "our_approach_content")
                    ||| lacks(*catalog, *lang, "why_us_title")
                    ||| lacks(*catalog, *lang, "why_us_content")
                },
            },
    {
        let body_title = match msg_get(catalog, "body_title", lang) {
            Some(text) => text,
            None => { return None; },
        };
        let title_byline = match msg_get(catalog, "title_byline", lang) {
            Some(text) => text,
            None => { return None; },
        };
        let intro_title = match msg_get(catalog, "intro_title", lang) {
            Some(text) => text,
            None => { return None; },
        };
        let intro_content = match msg_get(catalog, "intro_content", lang) {
            Some(text) => text,
            None => { return None; },
        };
        let our_approach_title = match msg_get(catalog, "our_approach_title", lang) {
            Some(text) => text,
            None => { return None; },
        };
        let our_approach_content = match msg_get(catalog, "our_approach_content", lang) {
            Some(text) => text,
            None => { return None; },
        };
        let why_us_title = match msg_get(catalog, "why_us_title", lang) {
            Some(text) => text,
            None => { return None; },
        };
        let why_us_content = match msg_get(catalog, "why_us_content", lang) {
            Some(text) => text,
            None => { return None; },
        };
        Some(
            AboutTemplate {
                body_title,
                title_byline,
                intro_title,
                intro_content,
                our_approach_title,
                our_approach_content,
                why_us_title,
                why_us_content,
            },
        )
    }
}

/// One of the services that the front page offers.
#[derive(Debug, PartialEq, Eq)]
pub struct OfferedService {
    pub name: String,
    pub description: String,
    pub link: String,
}

impl OfferedService {
    /// Gathers one service: its name and its description from the catalogue, under
    /// the two keys given, and the link as it is. `None` where the catalogue lacks
    /// one of the two.
    pub fn fetch_lang<F: Fn(&LanguageIdentifier, &str) -> Option<String>>(
        lang: &Lang,
        name_key: &str,
        description_key: &str,
        link: &str,
        catalog: &F,
    ) -> (service: Option<OfferedService>)
        requires
            serves(*catalog),
        ensures
            match service {
                Some(service) => {
                    &&& gives(*catalog, *lang, name_key, service.name)
                    &&& gives(*catalog, *lang, description_key, service.description)
                    &&& service.link@ == link@
                },
                None => lacks(*catalog, *lang, name_key) || lacks(*catalog, *lang, description_key),
            },
    {
        let name = match msg_get(catalog, name_key, lang) {
            Some(text) => text,
            None => { return None; },
        };
        let description = match msg_get(catalog, description_key, lang) {
            Some(text) => text,
            None => { return None; },
        };
        Some(OfferedService { name, description, link: link.to_owned() })
    }
}

/// The messages of the body of the front page.
#[derive(Debug, PartialEq, Eq)]
pub struct IndexBodyTemplate {
    pub our_services: String,
    pub services: Vec<OfferedService>,
    pub learn_more: String,
}

impl IndexBodyTemplate {
    /// Gathers the body of the front page in `lang`: the two services, printing
    /// first, each with its link, then the heading and the call to learn more.
    /// `None` where the catalogue lacks one of the six messages.
    pub fn fetch_lang<F: Fn(&LanguageIdentifier, &str) -> Option<String>>(
        lang: &Lang,
        catalog: &F,
    ) -> (body: Option<IndexBodyTemplate>)
        requires
            serves(*catalog),
        ensures
            match body {
                Some(body) => {
                    &&& body.services@.len() == 2
                    &&& gives(*catalog, *lang, "service_3DPrinting", body.services@[0].name)
                    &&& gives(
                        *catalog,
                        *lang,
                        "service_3DPrinting_desc",
                        body.services@[0].description,
                    )
                    &&& body.services@[0].link@ == "/fdm-3d-printing"@
                    &&& gives(*catalog, *lang, "service_design_optimisation", body.services@[1].name)
                    &&& gives(
                        *catalog,
                        *lang,
                        "service_design_optimisation_desc",
                        body.services@[1].description,
                    )
                    &&& body.services@[1].link@ == "/design-optimisation"@
                    &&& gives(*catalog, *lang, "our_services", body.our_services)
                    &&& gives(*catalog, *lang, "learn_more", body.learn_more)
                },
                None => {
                    ||| lacks(*catalog, *lang, "service_3DPrinting")
                    ||| lacks(*catalog, *lang, "service_3DPrinting_desc")
                    ||| lacks(*catalog, *lang, "service_design_optimisation")
                    ||| lacks(*catalog, *lang, "service_design_optimisation_desc")
                    ||| lacks(*catalog, *lang, "our_services")
                    ||| lacks(*catalog, *lang, "learn_more")
                },
            },
    {
        let printing = match OfferedService::fetch_lang(
            lang,
            "service_3DPrinting",
            "service_3DPrinting_desc",
            "/fdm-3d-printing",
            catalog,
        ) {
            Some(service) => service,
            None => { return None; },
        };
        let design = match OfferedService::fetch_lang(
            lang,
            "service_design_optimisation",
            "service_design_optimisation_desc",
            "/design-optimisation",
            catalog,
        ) {
            Some(service) => service,
            None => { return None; },
        };
        let our_services = match msg_get(catalog, "our_services", lang) {
            Some(text) => text,
            None => { return None; },
        };
        let learn_more = match msg_get(catalog, "learn_more", lang) {
            Some(text) => text,
            None => { return None; },
        };
        let mut services: Vec<OfferedService> = Vec::new();
        services.push(printing);
        services.push(design);
        Some(IndexBodyTemplate { our_services, services, learn_more })
    }
}

/// The frame that every page is set in.
#[derive(Debug, PartialEq, Eq)]
pub struct PageTemplate {
    pub lang: String,
    pub main: String,
    pub help_section_title: String,
    pub contact_us: String,
}

impl PageTemplate {
    /// Sets `main`, the body of a page as it was rendered, in the frame for
    /// `lang`: the language's code and the two messages of the footer. `None`
    /// where the catalogue lacks one of the two.
    pub fn fetch_lang<F: Fn(&LanguageIdentifier, &str) -> Option<String>>(
        lang: &Lang,
        main: String,
        catalog: &F,
    ) -> (page: Option<PageTemplate>)
        requires
            serves(*catalog),
        ensures
            match page {
                Some(page) => {
                    &&& page.lang@ == lang.code()
                    &&& page.main == main
                    &&& gives(*catalog, *lang, "footer_help_title", page.help_section_title)
                    &&& gives(*catalog, *lang, "footer_contact_us", page.contact_us)
                },
                None => {
                    ||| lacks(*catalog, *lang, "footer_help_title")
                    ||| lacks(*catalog, *lang, "footer_contact_us")
                },
            },
    {
        let help_section_title = match msg_get(catalog, "footer_help_title", lang) {
            Some(text) => text,
            None => { return None; },
        };
        let contact_us = match msg_get(catalog, "footer_contact_us", lang) {
            Some(text) => text,
            None => { return None; },
        };
        Some(
            PageTemplate { lang: lang.as_str().to_owned(), main, help_section_title, contact_us },
        )
    }
}

} // verus!
