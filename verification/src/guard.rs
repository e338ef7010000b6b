//! The path guard, and the redirect that it answers with.
//!
//! A request is resolved once: either its path starts with a language that the
//! deployment serves, and it goes on to the handlers with that language
//! attached, or it is answered with a redirect to the same target under the
//! language negotiated for the client.

use vstd::prelude::*;
use vstd::string::StringExecFns;
use crate::langs::Lang;
use crate::locales::{SupportedLocaleSet, SupportedView};
use crate::negotiate::{lemma_negotiated_supported, negotiate, negotiated, NegotiationResult};
use crate::path::{
    first_segment, path_of, path_part, remainder, rest_of, segment, strip_slash, without_slash,
};
use crate::tag::{canonical, lemma_canonical_fixed, LanguageTag};
use crate::text::{
    chars_of, first_index, lemma_first_index, lemma_first_index_is, push_all, string_of,
};

verus! {

/// The status of the redirect: 302 Found.
pub const FOUND: u16 = 302;

/// The language that a path is guarded by: the canonical form of its first
/// segment, where the deployment serves it. `None` where it does not.
pub open spec fn classified(path: Seq<char>, tags: Set<Seq<char>>) -> Option<Seq<char>> {
    let tag = canonical(first_segment(path));
    if tags.contains(tag) {
        Some(tag)
    } else {
        None
    }
}

/// The language to redirect to: the negotiated one, or the default where the
/// client stated no preference.
pub open spec fn resolved(negotiation: Option<Seq<char>>, default_tag: Seq<char>) -> Seq<char> {
    match negotiation {
        Some(tag) => tag,
        None => default_tag,
    }
}

/// Where a request for `target` is sent to once `tag` is chosen: `/`, the tag,
/// `/`, and the target without one leading `/`. A query string is part of the
/// target and so is kept as it is.
pub open spec fn location_of(target: Seq<char>, tag: Seq<char>) -> Seq<char> {
    seq!['/'] + tag + seq!['/'] + strip_slash(target)
}

/// What the guard found in a path.
#[derive(Debug, PartialEq, Eq)]
pub enum PathClass {
    /// The path starts with this language, which the deployment serves.
    Guarded(LanguageTag),
    /// The path does not start with a language that the deployment serves.
    Unguarded,
}

impl View for PathClass {
    type V = Option<Seq<char>>;

    open spec fn view(&self) -> Option<Seq<char>> {
        match *self {
            PathClass::Guarded(tag) => Some(tag@),
            PathClass::Unguarded => None,
        }
    }
}

/// Classifies a path by its first segment.
pub fn classify(path: &str, supported: &SupportedLocaleSet) -> (r: PathClass)
    ensures
        r@ == classified(path@, supported@.tags),
        r matches PathClass::Guarded(tag) ==> supported@.tags.contains(tag@),
{
    let chars = chars_of(path);
    classify_chars(chars.as_slice(), supported)
}

/// Classifies a path given as characters.
fn classify_chars(path: &[char], supported: &SupportedLocaleSet) -> (r: PathClass)
    ensures
        r@ == classified(path@, supported@.tags),
{
    let tag = LanguageTag::from_chars(segment(path));
    if supported.contains(&tag) {
        PathClass::Guarded(tag)
    } else {
        PathClass::Unguarded
    }
}

/// Tells whether a path starts with a language that the deployment serves.
pub fn lang_guard(path: &str, supported: &SupportedLocaleSet) -> (r: bool)
    ensures
        r == classified(path@, supported@.tags) is Some,
{
    match classify(path, supported) {
        PathClass::Guarded(_) => true,
        PathClass::Unguarded => false,
    }
}

/// The path that the handlers route on once the guard has consumed the first
/// segment of `path`.
pub fn routed_path(path: &str) -> (r: String)
    ensures
        r@ == remainder(path@),
{
    let chars = chars_of(path);
    string_of(rest_of(chars.as_slice()))
}

/// A redirect: the response that sends the client to the prefixed path. It has
/// no body.
#[derive(Debug, PartialEq, Eq)]
pub struct Redirect {
    /// The status code of the response.
    pub status: u16,
    /// The value of the `Location` header.
    pub location: String,
}

/// Builds the redirect for a request whose path is not guarded. `target` is the
/// path that was asked for, with its query string if it has one; `negotiation`
/// is what the client's header gave.
pub fn redirect(
    target: &str,
    supported: &SupportedLocaleSet,
    negotiation: &NegotiationResult,
) -> (r: Redirect)
    ensures
        r.status == FOUND,
        r.location@ == location_of(target@, resolved(negotiation@, supported@.default_tag)),
{
    let tag = match negotiation {
        NegotiationResult::Resolved(tag) => tag,
        NegotiationResult::NoPreference => supported.default(),
    };
    let chars = chars_of(target);
    let mut location = String::new();
    location.push('/');
    location.append(tag.as_str());
    location.push('/');
    push_all(&mut location, without_slash(chars.as_slice()));
    proof {
        assert(location@ =~= location_of(target@, tag@));
    }
    Redirect { status: FOUND, location }
}

/// The language resolved for one request. It is made when the guard lets the
/// request pass and is read by the handlers.
#[derive(Debug, PartialEq, Eq)]
pub struct RequestLanguageContext {
    tag: LanguageTag,
}

impl View for RequestLanguageContext {
    type V = Seq<char>;

    closed spec fn view(&self) -> Seq<char> {
        self.tag@
    }
}

impl RequestLanguageContext {
    /// The language of the request.
    pub fn tag(&self) -> (tag: &LanguageTag)
        ensures
            tag@ == self@,
    {
        &self.tag
    }

    /// The language of the request as one of the languages the site has content
    /// for, if it is one.
    pub fn lang(&self) -> (lang: Option<Lang>)
        ensures
            lang == Lang::of_code(self@),
    {
        Lang::from_tag(&self.tag)
    }
}

/// What the guard reads of a request.
#[derive(Debug, PartialEq, Eq)]
pub struct RequestHead {
    /// The path that was asked for, with `?` and the query string if there is one.
    pub target: String,
    /// The value of the `Accept-Language` header, if the request has one.
    pub accept_language: Option<String>,
}

impl RequestHead {
    /// The header's text.
    pub open spec fn header(self) -> Option<Seq<char>> {
        match self.accept_language {
            Some(text) => Some(text@),
            None => None,
        }
    }
}

/// What becomes of a request: the two ways in which the guard resolves it.
#[derive(Debug, PartialEq, Eq)]
pub enum GuardOutcome {
    /// The path is guarded: the request goes on to the handlers, which see the
    /// language and the path behind the language prefix.
    Guarded { context: RequestLanguageContext, route: String },
    /// The path is not guarded: the request is answered with this redirect.
    Redirecting(Redirect),
}

/// What a `GuardOutcome` stands for.
pub ghost enum OutcomeView {
    Guarded { tag: Seq<char>, route: Seq<char> },
    Redirecting { status: int, location: Seq<char> },
}

impl View for GuardOutcome {
    type V = OutcomeView;

    open spec fn view(&self) -> OutcomeView {
        match *self {
            GuardOutcome::Guarded { context, route } => OutcomeView::Guarded {
                tag: context@,
                route: route@,
            },
            GuardOutcome::Redirecting(redirect) => OutcomeView::Redirecting {
                status: redirect.status as int,
                location: redirect.location@,
            },
        }
    }
}

/// How a request is resolved, from its target, its `Accept-Language` header and
/// the languages served.
pub open spec fn outcome_of(
    target: Seq<char>,
    header: Option<Seq<char>>,
    supported: SupportedView,
) -> OutcomeView {
    match classified(path_of(target), supported.tags) {
        Some(tag) => OutcomeView::Guarded { tag, route: remainder(path_of(target)) },
        None => OutcomeView::Redirecting {
            status: FOUND as int,
            location: location_of(
                target,
                resolved(negotiated(header, supported.tags), supported.default_tag),
            ),
        },
    }
}

/// The guard as it is configured: the languages that the deployment serves.
#[derive(Debug)]
pub struct LangGuardRedir {
    pub supported_langs: SupportedLocaleSet,
}

impl LangGuardRedir {
    /// Puts the guard in front of a service.
    pub fn new_transform<S>(&self, service: S) -> (middleware: LanguageMiddleware<S>)
        ensures
            middleware.supported() == self.supported_langs@,
            middleware.inner() == service,
    {
        LanguageMiddleware { service, supported_langs: self.supported_langs.clone() }
    }
}

/// The guard in front of a service.
pub struct LanguageMiddleware<S> {
    service: S,
    supported_langs: SupportedLocaleSet,
}

impl<S> LanguageMiddleware<S> {
    /// The languages that the guard lets pass.
    pub closed spec fn supported(self) -> SupportedView {
        self.supported_langs@
    }

    /// The service behind the guard.
    pub closed spec fn inner(self) -> S {
        self.service
    }

    /// The service behind the guard.
    pub fn service(&self) -> (service: &S)
        ensures
            *service == self.inner(),
    {
        &self.service
    }

    /// The languages that the guard lets pass.
    pub fn supported_langs(&self) -> (supported: &SupportedLocaleSet)
        ensures
            supported@ == self.supported(),
    {
        &self.supported_langs
    }

    /// Resolves a request. Where the path is guarded, the request is to go on to
    /// the service; where it is not, the redirect is the whole answer and the
    /// service never sees the request.
    pub fn call(&self, request: &RequestHead) -> (outcome: GuardOutcome)
        ensures
            outcome@ == outcome_of(request.target@, request.header(), self.supported()),
            outcome matches GuardOutcome::Guarded { context, .. }
                ==> self.supported().tags.contains(context@),
    {
        let chars = chars_of(request.target.as_str());
        let path = path_part(chars.as_slice());
        match classify_chars(path, &self.supported_langs) {
            PathClass::Guarded(tag) => GuardOutcome::Guarded {
                context: RequestLanguageContext { tag },
                route: string_of(rest_of(path)),
            },
            PathClass::Unguarded => {
                let header = match &request.accept_language {
                    Some(text) => Some(text.as_str()),
                    None => None,
                };
                let negotiation = negotiate(header, &self.supported_langs);
                GuardOutcome::Redirecting(
                    redirect(request.target.as_str(), &self.supported_langs, &negotiation),
                )
            },
        }
    }
}

/// Tells whether a tag can stand as a path segment of its own: it holds neither
/// `/` nor `?`.
pub open spec fn is_segment(tag: Seq<char>) -> bool {
    !tag.contains('/') && !tag.contains('?')
}

/// A path made of a served language and any suffix is guarded by that language:
/// for every tag that the deployment serves and that holds no `/`, and every
/// suffix, `/` + tag + `/` + suffix classifies as guarded by the tag.
pub proof fn lemma_prefixed_path_is_guarded(
    supported: SupportedView,
    tag: Seq<char>,
    suffix: Seq<char>,
)
    requires
        supported.valid(),
        supported.tags.contains(tag),
        !tag.contains('/'),
    ensures
        classified(seq!['/'] + tag + seq!['/'] + suffix, supported.tags) == Some(tag),
{
    let path = seq!['/'] + tag + seq!['/'] + suffix;
    let rest = tag + seq!['/'] + suffix;
    assert(strip_slash(path) =~= rest);
    assert forall|j: int| 0 <= j < tag.len() implies rest[j] != '/' by {
        assert(rest[j] == tag[j]);
    }
    lemma_first_index_is(rest, '/', tag.len() as int);
    assert(first_segment(path) =~= tag);
    lemma_canonical_fixed(tag);
}

/// A request for a prefixed target passes the guard, whatever its header says,
/// and the language attached to it is the prefix: for every served tag that can
/// stand as a segment, the target `/` + tag + `/` + suffix is resolved as guarded
/// by the tag, and the handlers route on `/` and the path of the suffix.
pub proof fn lemma_prefixed_target_passes(
    supported: SupportedView,
    header: Option<Seq<char>>,
    tag: Seq<char>,
    suffix: Seq<char>,
)
    requires
        supported.valid(),
        supported.tags.contains(tag),
        is_segment(tag),
    ensures
        outcome_of(seq!['/'] + tag + seq!['/'] + suffix, header, supported)
            == (OutcomeView::Guarded { tag, route: seq!['/'] + path_of(suffix) }),
{
    let target = seq!['/'] + tag + seq!['/'] + suffix;
    let front = seq!['/'] + tag + seq!['/'];
    lemma_first_index(suffix, '?');
    let k = first_index(suffix, '?');
    assert forall|j: int| 0 <= j < front.len() + k implies target[j] != '?' by {
        if 1 <= j <= tag.len() {
            assert(target[j] == tag[j - 1]);
        } else if j >= front.len() {
            assert(target[j] == suffix[j - front.len()]);
        }
    }
    if k < suffix.len() {
        assert(target[front.len() + k] == suffix[k]);
    }
    lemma_first_index_is(target, '?', front.len() + k);
    let path = path_of(target);
    assert(path =~= seq!['/'] + tag + seq!['/'] + path_of(suffix));
    lemma_prefixed_path_is_guarded(supported, tag, path_of(suffix));
    let rest = tag + seq!['/'] + path_of(suffix);
    assert(strip_slash(path) =~= rest);
    assert forall|j: int| 0 <= j < tag.len() implies rest[j] != '/' by {
        assert(rest[j] == tag[j]);
    }
    lemma_first_index_is(rest, '/', tag.len() as int);
    assert(remainder(path) =~= seq!['/'] + path_of(suffix));
}

/// Without an `Accept-Language` header, a request whose path is not guarded is
/// redirected to its target under the default language.
pub proof fn lemma_no_header_redirects_to_default(target: Seq<char>, supported: SupportedView)
    requires
        classified(path_of(target), supported.tags) is None,
    ensures
        outcome_of(target, None, supported) == (OutcomeView::Redirecting {
            status: 302,
            location: seq!['/'] + supported.default_tag + seq!['/'] + strip_slash(target),
        }),
{
}

/// Classifying is a function of the path and the languages served: two calls of
/// `classify` on the same path and set, each with the result that its contract
/// states, give the same result.
pub proof fn lemma_classify_is_repeatable(
    path: Seq<char>,
    tags: Set<Seq<char>>,
    first: PathClass,
    second: PathClass,
)
    requires
        first@ == classified(path, tags),
        second@ == classified(path, tags),
    ensures
        first@ == second@,
        first is Guarded <==> second is Guarded,
{
}

/// A redirect is always to a language that the deployment serves.
pub proof fn lemma_redirect_language_is_served(header: Option<Seq<char>>, supported: SupportedView)
    requires
        supported.valid(),
    ensures
        supported.tags.contains(
            resolved(negotiated(header, supported.tags), supported.default_tag),
        ),
{
    lemma_negotiated_supported(header, supported.tags);
}

/// A redirect is followed at most once: where every served tag can stand as a
/// segment, the location that a request is redirected to passes the guard, with
/// the language that was chosen for it.
pub proof fn lemma_redirect_passes(
    target: Seq<char>,
    header: Option<Seq<char>>,
    next_header: Option<Seq<char>>,
    supported: SupportedView,
)
    requires
        supported.valid(),
        forall|t: Seq<char>| supported.tags.contains(t) ==> is_segment(t),
        outcome_of(target, header, supported) is Redirecting,
    ensures
        outcome_of(
            outcome_of(target, header, supported)->location,
            next_header,
            supported,
        ) is Guarded,
        outcome_of(
            outcome_of(target, header, supported)->location,
            next_header,
            supported,
        )->tag == resolved(negotiated(header, supported.tags), supported.default_tag),
{
    let tag = resolved(negotiated(header, supported.tags), supported.default_tag);
    lemma_redirect_language_is_served(header, supported);
    lemma_prefixed_target_passes(supported, next_header, tag, strip_slash(target));
}

} // verus!
