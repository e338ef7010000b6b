use lang_guard::guard::{
    classify, lang_guard, redirect, routed_path, GuardOutcome, LangGuardRedir, PathClass,
    Redirect, RequestHead, FOUND,
};
use lang_guard::langs::Lang;
use lang_guard::locales::SupportedLocaleSet;
use lang_guard::negotiate::{negotiate, NegotiationResult};
use lang_guard::tag::LanguageTag;

fn serving(raw: &[&str], default_tag: &str) -> SupportedLocaleSet {
    let tags = raw.iter().map(|name| LanguageTag::parse(name)).collect();
    match SupportedLocaleSet::new(tags, LanguageTag::parse(default_tag)) {
        Ok(set) => set,
        Err(error) => panic!("{:?}", error),
    }
}

fn english_and_french() -> SupportedLocaleSet {
    serving(&["en", "fr"], "en")
}

fn guarded(tag: &str) -> PathClass {
    PathClass::Guarded(LanguageTag::parse(tag))
}

fn request(target: &str, accept_language: Option<&str>) -> RequestHead {
    RequestHead {
        target: target.to_string(),
        accept_language: accept_language.map(|text| text.to_string()),
    }
}

fn resolve(target: &str, accept_language: Option<&str>, set: SupportedLocaleSet) -> GuardOutcome {
    let guard = LangGuardRedir { supported_langs: set };
    guard.new_transform(()).call(&request(target, accept_language))
}

fn location(outcome: GuardOutcome) -> String {
    match outcome {
        GuardOutcome::Redirecting(redirect) => {
            assert_eq!(redirect.status, 302);
            redirect.location
        },
        GuardOutcome::Guarded { context, route } => {
            panic!("guarded by {:?} with route {}", context, route)
        },
    }
}

fn passed(outcome: GuardOutcome) -> (String, String) {
    match outcome {
        GuardOutcome::Guarded { context, route } => (context.tag().as_str().to_string(), route),
        GuardOutcome::Redirecting(redirect) => panic!("redirected to {}", redirect.location),
    }
}

#[test]
fn a_prefixed_path_is_guarded() {
    let set = english_and_french();
    assert_eq!(classify("/en/about", &set), guarded("en"));
    assert_eq!(classify("/fr/about", &set), guarded("fr"));
    assert_eq!(classify("/fr", &set), guarded("fr"));
    assert_eq!(classify("/fr/", &set), guarded("fr"));
}

#[test]
fn every_supported_tag_guards_every_suffix() {
    let set = serving(&["en", "fr", "de", "he"], "en");
    for tag in ["en", "fr", "de", "he"] {
        for suffix in ["", "about", "a/b/c", "/", "en/fr", "static/site.css", "-", "?"] {
            let path = format!("/{}/{}", tag, suffix);
            match classify(&path, &set) {
                PathClass::Guarded(found) => assert_eq!(found.as_str(), tag),
                PathClass::Unguarded => panic!("{} is not guarded", path),
            }
        }
    }
}

#[test]
fn a_prefixed_path_to_nowhere_is_still_guarded() {
    let set = english_and_french();
    assert_eq!(classify("/en/nonexistent", &set), guarded("en"));
    let (tag, route) = passed(resolve("/en/nonexistent", Some("fr"), english_and_french()));
    assert_eq!(tag, "en");
    assert_eq!(route, "/nonexistent");
}

#[test]
fn an_unprefixed_path_is_not_guarded() {
    let set = english_and_french();
    assert_eq!(classify("/about", &set), PathClass::Unguarded);
    assert_eq!(classify("/de/about", &set), PathClass::Unguarded);
    assert_eq!(classify("/english/about", &set), PathClass::Unguarded);
    assert_eq!(classify("/e/n", &set), PathClass::Unguarded);
    assert_eq!(classify("/about/en", &set), PathClass::Unguarded);
}

#[test]
fn the_root_and_the_empty_path_are_not_guarded() {
    let set = english_and_french();
    assert_eq!(classify("/", &set), PathClass::Unguarded);
    assert_eq!(classify("", &set), PathClass::Unguarded);
}

#[test]
fn only_one_leading_slash_is_stripped() {
    let set = english_and_french();
    assert_eq!(classify("//en/about", &set), PathClass::Unguarded);
    assert_eq!(classify("en/about", &set), guarded("en"));
    assert_eq!(classify("en", &set), guarded("en"));
}

#[test]
fn the_segment_is_canonicalized() {
    let set = english_and_french();
    assert_eq!(classify("/EN/about", &set), guarded("en"));
    assert_eq!(classify("/fr-CA/about", &set), guarded("fr"));
    assert_eq!(classify("/Fr-ca", &set), guarded("fr"));
    assert_eq!(classify("/en-/x", &set), guarded("en"));
}

#[test]
fn classifying_twice_gives_the_same() {
    let set = english_and_french();
    for path in ["/en/about", "/fr", "/about", "/", "", "/EN-us/x"] {
        assert_eq!(classify(path, &set), classify(path, &set));
        assert_eq!(lang_guard(path, &set), lang_guard(path, &set));
    }
    assert_eq!(classify("/en/about", &set), guarded("en"));
}

#[test]
fn lang_guard_tells_guarded_from_unguarded() {
    let set = english_and_french();
    assert!(lang_guard("/en", &set));
    assert!(lang_guard("/fr/faq", &set));
    assert!(!lang_guard("/faq", &set));
    assert!(!lang_guard("/de/faq", &set));
    assert!(!lang_guard("", &set));
}

#[test]
fn the_route_is_the_path_behind_the_first_segment() {
    assert_eq!(routed_path("/en/about/team"), "/about/team");
    assert_eq!(routed_path("/en/"), "/");
    assert_eq!(routed_path("/en"), "");
    assert_eq!(routed_path("en/x"), "/x");
    assert_eq!(routed_path("/"), "");
    assert_eq!(routed_path(""), "");
    assert_eq!(routed_path("//x"), "/x");
}

#[test]
fn the_redirect_keeps_path_and_query() {
    let set = english_and_french();
    let negotiation = negotiate(Some("fr;q=1.0"), &set);
    assert_eq!(
        redirect("/about?x=1", &set, &negotiation),
        Redirect { status: 302, location: "/fr/about?x=1".to_string() }
    );
}

#[test]
fn the_redirect_status_is_found() {
    assert_eq!(FOUND, 302);
    let set = english_and_french();
    assert_eq!(redirect("/", &set, &NegotiationResult::NoPreference).status, 302);
}

#[test]
fn without_preference_the_redirect_is_to_the_default() {
    let set = serving(&["en", "fr"], "fr");
    let found = redirect("/about", &set, &NegotiationResult::NoPreference);
    assert_eq!(found.location, "/fr/about");
}

#[test]
fn the_redirect_strips_one_leading_slash() {
    let set = english_and_french();
    let french = NegotiationResult::Resolved(LanguageTag::parse("fr"));
    assert_eq!(redirect("/about", &set, &french).location, "/fr/about");
    assert_eq!(redirect("about", &set, &french).location, "/fr/about");
    assert_eq!(redirect("//about", &set, &french).location, "/fr//about");
    assert_eq!(redirect("/", &set, &french).location, "/fr/");
    assert_eq!(redirect("", &set, &french).location, "/fr/");
    assert_eq!(redirect("/a/b/?q=/x&y=2", &set, &french).location, "/fr/a/b/?q=/x&y=2");
}

#[test]
fn a_request_with_a_header_is_redirected_to_its_language() {
    let outcome = resolve("/about?x=1", Some("fr;q=1.0"), english_and_french());
    assert_eq!(
        outcome,
        GuardOutcome::Redirecting(Redirect { status: 302, location: "/fr/about?x=1".to_string() })
    );
}

#[test]
fn a_request_without_a_header_is_redirected_to_the_default() {
    for target in ["/about", "/de/about", "/", "/about?lang=fr", "/x/y/z"] {
        let found = location(resolve(target, None, english_and_french()));
        assert_eq!(found, format!("/en{}", target));
    }
    assert_eq!(location(resolve("", None, english_and_french())), "/en/");
    assert_eq!(location(resolve("about", None, english_and_french())), "/en/about");
}

#[test]
fn a_request_that_prefers_nothing_served_is_redirected_to_the_default() {
    let set = serving(&["de", "he"], "he");
    assert_eq!(location(resolve("/faq", Some("en,fr;q=0.9"), set)), "/he/faq");
}

#[test]
fn a_request_is_redirected_to_the_preferred_language() {
    let header = Some("en-US,fr;q=0.8");
    assert_eq!(location(resolve("/faq", header, english_and_french())), "/en/faq");
    let header = Some("xx;q=1.0,fr;q=0.5");
    assert_eq!(location(resolve("/faq", header, english_and_french())), "/fr/faq");
}

#[test]
fn a_guarded_request_passes_with_its_language() {
    let (tag, route) = passed(resolve("/fr/about_page", None, english_and_french()));
    assert_eq!(tag, "fr");
    assert_eq!(route, "/about_page");
}

#[test]
fn a_guarded_request_passes_whatever_the_header_says() {
    let (tag, route) = passed(resolve("/fr/faq", Some("en"), english_and_french()));
    assert_eq!(tag, "fr");
    assert_eq!(route, "/faq");
}

#[test]
fn the_query_is_no_part_of_the_path() {
    let (tag, route) = passed(resolve("/en?x=1", None, english_and_french()));
    assert_eq!(tag, "en");
    assert_eq!(route, "");
    let (tag, route) = passed(resolve("/fr/a/b?next=/en/c", None, english_and_french()));
    assert_eq!(tag, "fr");
    assert_eq!(route, "/a/b");
    assert_eq!(location(resolve("/a?next=/en", None, english_and_french())), "/en/a?next=/en");
}

#[test]
fn the_context_knows_its_language() {
    match resolve("/he/faq", None, serving(&["he", "xx"], "he")) {
        GuardOutcome::Guarded { context, route } => {
            assert_eq!(context.tag(), &LanguageTag::parse("he"));
            assert_eq!(context.lang(), Some(Lang::He));
            assert_eq!(route, "/faq");
        },
        GuardOutcome::Redirecting(redirect) => panic!("redirected to {}", redirect.location),
    }
    match resolve("/xx/faq", None, serving(&["he", "xx"], "he")) {
        GuardOutcome::Guarded { context, .. } => {
            assert_eq!(context.tag().as_str(), "xx");
            assert_eq!(context.lang(), None);
        },
        GuardOutcome::Redirecting(redirect) => panic!("redirected to {}", redirect.location),
    }
}

#[test]
fn a_redirect_is_followed_at_most_once() {
    for target in ["/about?x=1", "/", "", "/de/x", "//fr"] {
        let first = location(resolve(target, Some("fr"), english_and_french()));
        let (tag, _) = passed(resolve(&first, Some("en"), english_and_french()));
        assert_eq!(tag, "fr");
    }
}

#[test]
fn resolving_twice_gives_the_same() {
    let guard = LangGuardRedir { supported_langs: english_and_french() };
    let middleware = guard.new_transform(());
    for target in ["/en/about", "/about?x=1", "/"] {
        let head = request(target, Some("fr;q=0.3"));
        assert_eq!(middleware.call(&head), middleware.call(&head));
    }
}

#[test]
fn the_middleware_holds_the_service_and_the_languages() {
    let guard = LangGuardRedir { supported_langs: serving(&["en", "fr"], "fr") };
    let middleware = guard.new_transform(7u32);
    assert_eq!(*middleware.service(), 7);
    assert_eq!(middleware.supported_langs().len(), 2);
    assert_eq!(middleware.supported_langs().default().as_str(), "fr");
    assert!(middleware.supported_langs().contains(&LanguageTag::parse("en")));
    assert!(guard.supported_langs.contains(&LanguageTag::parse("en")));
}
