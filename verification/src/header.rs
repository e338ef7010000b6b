//! Reading the value of an `Accept-Language` header.
//!
//! The header is read by actix-web, the framework that the site is served with.
//! This module is the one place where the library calls it. What it reads is
//! handed on as plain text, item by item.

use actix_web::http::header::{
    from_comma_delimited, HeaderValue, LanguageTag, Preference, QualityItem,
};
use vstd::prelude::*;

verus! {

/// One item of the header as the framework read it.
#[derive(Debug, PartialEq, Eq)]
pub struct HeaderItem {
    /// The language range in the framework's spelling; `*` stands for any language.
    pub range: String,
    /// The quality as the framework prints it: `0`, `1`, or `0.` and up to three
    /// digits.
    pub quality: String,
}

impl View for HeaderItem {
    type V = (Seq<char>, Seq<char>);

    open spec fn view(&self) -> (Seq<char>, Seq<char>) {
        (self.range@, self.quality@)
    }
}

/// What a list of items stands for, where there is one.
pub open spec fn item_views(items: Option<Vec<HeaderItem>>) -> Option<Seq<(Seq<char>, Seq<char>)>> {
    match items {
        Some(items) => Some(Seq::new(items@.len(), |i: int| items@[i]@)),
        None => None,
    }
}

/// The items that actix-web reads from the text of an `Accept-Language` header,
/// in the order of the header, each as its range and its quality; `None` where
/// actix-web does not take the text for a header value. This is a name for the
/// result of `from_comma_delimited` on the one value: the contracts say nothing
/// of it but that the same text gives the same items.
pub uninterp spec fn accept_language_items(header: Seq<char>) -> Option<Seq<(Seq<char>, Seq<char>)>>;

/// Calls actix-web's `from_comma_delimited`, which `AcceptLanguage::parse` is made
/// of, on the header's text as the one value of the header. The contract claims
/// only that the result is a function of the text: it is the named
/// `accept_language_items`. Each item comes back as the text that its range and
/// its quality are printed as.
#[verifier::external_body]
pub(crate) fn read_accept_language(header: &str) -> (items: Option<Vec<HeaderItem>>)
    ensures
        item_views(items) == accept_language_items(header@),
{
    let value = HeaderValue::from_str(header).ok()?;
    let read: Vec<QualityItem<Preference<LanguageTag>>> =
        from_comma_delimited(std::iter::once(&value)).ok()?;
    Some(
        read.iter().map(
            |item| HeaderItem { range: item.item.to_string(), quality: item.quality.to_string() },
        ).collect(),
    )
}

} // verus!
