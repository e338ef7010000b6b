//! Locale resolution for a site served under language-prefixed paths.
//!
//! Every request path is expected to start with a supported language tag
//! (`/en/...`, `/fr/...`). The guard in [`guard`] decides whether a path already
//! carries such a prefix; when it does not, the negotiator in [`negotiate`] picks
//! the best supported language from the client's `Accept-Language` header and
//! the guard answers with a redirect to the prefixed path.
//!
//! The library decides; it does no input or output. A request comes in as plain
//! text, and what is to be done with it goes out as a value for the server to
//! act on. Two modules call other crates: [`header`] has the header read by
//! actix-web, and [`identifier`] has the catalogue's language identifiers made by
//! `unic_langid`. [`handlers`] gathers the messages of the pages from a catalogue
//! that is handed in as a function.

pub mod text;
pub mod path;
pub mod tag;
pub mod langs;
pub mod locales;
pub mod header;
pub mod identifier;
pub mod negotiate;
pub mod guard;
pub mod handlers;
