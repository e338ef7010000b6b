use lang_guard::handlers::{
    msg_get, AboutTemplate, IndexBodyTemplate, OfferedService, PageTemplate,
};
use lang_guard::langs::Lang;
use unic_langid::LanguageIdentifier;

fn echo(lang: &LanguageIdentifier, key: &str) -> Option<String> {
    Some(format!("{}:{}", lang, key))
}

fn english_only(lang: &LanguageIdentifier, key: &str) -> Option<String> {
    if lang.language.as_str() == "en" {
        Some(format!("en:{}", key))
    } else {
        None
    }
}

fn without(missing: &'static str) -> impl Fn(&LanguageIdentifier, &str) -> Option<String> {
    move |lang: &LanguageIdentifier, key: &str| if key == missing { None } else { echo(lang, key) }
}

#[test]
fn msg_get_returns_what_the_catalogue_has() {
    assert_eq!(msg_get(&echo, "body_title", &Lang::Fr), Some("fr:body_title".to_string()));
    assert_eq!(msg_get(&english_only, "learn_more", &Lang::En), Some("en:learn_more".to_string()));
}

#[test]
fn the_catalogue_is_asked_by_the_identifier_of_the_language() {
    for lang in [Lang::En, Lang::Fr, Lang::De, Lang::He] {
        let expected: LanguageIdentifier = match lang.as_str().parse() {
            Ok(id) => id,
            Err(error) => panic!("{:?}", error),
        };
        let asked = |id: &LanguageIdentifier, _key: &str| {
            assert_eq!(id, &expected);
            assert_eq!(id.language.as_str(), lang.as_str());
            assert!(id.script.is_none() && id.region.is_none());
            Some(String::new())
        };
        assert_eq!(msg_get(&asked, "learn_more", &lang), Some(String::new()));
    }
}

#[test]
fn msg_get_returns_none_where_the_catalogue_has_nothing() {
    assert_eq!(msg_get(&english_only, "learn_more", &Lang::De), None);
    assert_eq!(msg_get(&without("learn_more"), "learn_more", &Lang::En), None);
}

#[test]
fn the_about_page_is_filled_field_by_key() {
    let page = AboutTemplate::fetch_lang(&Lang::He, &echo);
    assert_eq!(
        page,
        Some(AboutTemplate {
            body_title: "he:body_title".to_string(),
            title_byline: "he:title_byline".to_string(),
            intro_title: "he:intro_title".to_string(),
            intro_content: "he:intro_content".to_string(),
            our_approach_title: "he:our_approach_title".to_string(),
            our_approach_content: "he:our_approach_content".to_string(),
            why_us_title: "he:why_us_title".to_string(),
            why_us_content: "he:why_us_content".to_string(),
        })
    );
}

#[test]
fn the_about_page_needs_all_its_messages() {
    for key in [
        "body_title",
        "title_byline",
        "intro_title",
        "intro_content",
        "our_approach_title",
        "our_approach_content",
        "why_us_title",
        "why_us_content",
    ] {
        assert_eq!(AboutTemplate::fetch_lang(&Lang::En, &without(key)), None);
    }
    assert_eq!(AboutTemplate::fetch_lang(&Lang::Fr, &english_only), None);
    assert!(AboutTemplate::fetch_lang(&Lang::En, &without("learn_more")).is_some());
}

#[test]
fn a_service_is_filled_from_its_two_keys() {
    let service = OfferedService::fetch_lang(&Lang::De, "name", "text", "/there", &echo);
    assert_eq!(
        service,
        Some(OfferedService {
            name: "de:name".to_string(),
            description: "de:text".to_string(),
            link: "/there".to_string(),
        })
    );
    assert_eq!(OfferedService::fetch_lang(&Lang::De, "name", "text", "/", &without("name")), None);
    assert_eq!(OfferedService::fetch_lang(&Lang::De, "name", "text", "/", &without("text")), None);
}

#[test]
fn the_front_page_lists_the_two_services() {
    let body = IndexBodyTemplate::fetch_lang(&Lang::En, &echo);
    assert_eq!(
        body,
        Some(IndexBodyTemplate {
            our_services: "en:our_services".to_string(),
            services: vec![
                OfferedService {
                    name: "en:service_3DPrinting".to_string(),
                    description: "en:service_3DPrinting_desc".to_string(),
                    link: "/fdm-3d-printing".to_string(),
                },
                OfferedService {
                    name: "en:service_design_optimisation".to_string(),
                    description: "en:service_design_optimisation_desc".to_string(),
                    link: "/design-optimisation".to_string(),
                },
            ],
            learn_more: "en:learn_more".to_string(),
        })
    );
}

#[test]
fn the_front_page_needs_all_its_messages() {
    for key in [
        "service_3DPrinting",
        "service_3DPrinting_desc",
        "service_design_optimisation",
        "service_design_optimisation_desc",
        "our_services",
        "learn_more",
    ] {
        assert_eq!(IndexBodyTemplate::fetch_lang(&Lang::En, &without(key)), None);
    }
    assert!(IndexBodyTemplate::fetch_lang(&Lang::En, &without("body_title")).is_some());
}

#[test]
fn the_frame_carries_the_language_and_the_body() {
    let page = PageTemplate::fetch_lang(&Lang::Fr, "<main/>".to_string(), &echo);
    assert_eq!(
        page,
        Some(PageTemplate {
            lang: "fr".to_string(),
            main: "<main/>".to_string(),
            help_section_title: "fr:footer_help_title".to_string(),
            contact_us: "fr:footer_contact_us".to_string(),
        })
    );
}

#[test]
fn the_frame_needs_the_footer() {
    let no_title = without("footer_help_title");
    let no_contact = without("footer_contact_us");
    assert_eq!(PageTemplate::fetch_lang(&Lang::Fr, String::new(), &no_title), None);
    assert_eq!(PageTemplate::fetch_lang(&Lang::Fr, String::new(), &no_contact), None);
}
