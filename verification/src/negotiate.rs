//! Picking the language to serve from an `Accept-Language` header.
//!
//! The header lists language ranges, each with a quality between 0 and 1. The
//! framework reads the header (see [`crate::header`]); this module turns what it
//! read into entries and picks the preferred one among those that the deployment
//! serves. Qualities are held in thousandths, so that 1.0 is `1000`. A quality of
//! 0 says that the client does not accept the language.

use vstd::prelude::*;
use crate::header::{accept_language_items, read_accept_language, HeaderItem};
use crate::locales::SupportedLocaleSet;
use crate::tag::{canonical, LanguageTag};
use crate::text::chars_of;

verus! {

/// The highest quality there is: 1.0.
pub const FULL_QUALITY: u16 = 1000;

/// Tells whether `c` is a decimal digit.
pub open spec fn is_digit(c: char) -> bool {
    '0' <= c && c <= '9'
}

/// The number a decimal digit stands for.
pub open spec fn digit_value(c: char) -> nat {
    (c as u8 - '0' as u8) as nat
}

/// The digit at position `i` of `s`, or 0 where `s` ends before it.
pub open spec fn digit_at(s: Seq<char>, i: int) -> nat {
    if i < s.len() {
        digit_value(s[i])
    } else {
        0
    }
}

/// The shape of a quality value: one digit, then optionally a `.` and up to three
/// digits.
pub open spec fn is_quality_text(s: Seq<char>) -> bool {
    &&& 1 <= s.len() <= 5
    &&& is_digit(s[0])
    &&& s.len() >= 2 ==> s[1] == '.'
    &&& forall|i: int| 2 <= i < s.len() ==> is_digit(#[trigger] s[i])
}

/// The quality that `s` states, in thousandths: `0.8` is 800 and `1` is 1000.
/// `None` where `s` has not the shape of a quality value or states more than 1.
pub open spec fn quality_value(s: Seq<char>) -> Option<nat> {
    let value = digit_value(s[0]) * 1000 + digit_at(s, 2) * 100 + digit_at(s, 3) * 10 + digit_at(
        s,
        4,
    );
    if is_quality_text(s) && value <= FULL_QUALITY {
        Some(value)
    } else {
        None
    }
}

/// What an entry of the header stands for: the language range as it was read,
/// and the quality in thousandths.
pub ghost struct EntryView {
    pub tag: Seq<char>,
    pub quality: nat,
}

/// The entry that one item of the header makes. `None` where the item's quality
/// cannot be read: such an item is passed over.
pub open spec fn entry_of(item: (Seq<char>, Seq<char>)) -> Option<EntryView> {
    match quality_value(item.1) {
        Some(quality) => Some(EntryView { tag: item.0, quality }),
        None => None,
    }
}

/// The entries that a list of items makes, in the order of the items.
pub open spec fn entries_of(items: Seq<(Seq<char>, Seq<char>)>) -> Seq<EntryView>
    decreases items.len(),
{
    if items.len() == 0 {
        Seq::empty()
    } else {
        match entry_of(items.last()) {
            Some(entry) => entries_of(items.drop_last()).push(entry),
            None => entries_of(items.drop_last()),
        }
    }
}

/// The entries of a header, in the order in which the client wrote them; `None`
/// where the text is no header value.
pub open spec fn header_entries(header: Seq<char>) -> Option<Seq<EntryView>> {
    match accept_language_items(header) {
        Some(items) => Some(entries_of(items)),
        None => None,
    }
}

/// An entry is a candidate when the client accepts it (its quality is not 0)
/// and the deployment serves its language.
pub open spec fn is_candidate(entry: EntryView, tags: Set<Seq<char>>) -> bool {
    entry.quality > 0 && tags.contains(canonical(entry.tag))
}

/// Entry `i` is the preferred one: it is a candidate, no candidate has a higher
/// quality, and every candidate in front of it has a lower one.
pub open spec fn is_preferred(entries: Seq<EntryView>, tags: Set<Seq<char>>, i: int) -> bool {
    &&& 0 <= i < entries.len()
    &&& is_candidate(entries[i], tags)
    &&& forall|j: int|
        0 <= j < entries.len() && is_candidate(#[trigger] entries[j], tags) ==> entries[j].quality
            <= entries[i].quality
    &&& forall|j: int|
        0 <= j < i && is_candidate(#[trigger] entries[j], tags) ==> entries[j].quality
            < entries[i].quality
}

/// The language of the preferred entry, in canonical form; `None` where no entry
/// is a candidate.
pub open spec fn preferred(entries: Seq<EntryView>, tags: Set<Seq<char>>) -> Option<Seq<char>> {
    if exists|i: int| is_preferred(entries, tags, i) {
        Some(canonical(entries[choose|i: int| is_preferred(entries, tags, i)].tag))
    } else {
        None
    }
}

/// What negotiation gives for a header, or for a request without one: the
/// preferred language among the header's entries, if there is one.
pub open spec fn negotiated(header: Option<Seq<char>>, tags: Set<Seq<char>>) -> Option<
    Seq<char>,
> {
    match header {
        Some(text) => match header_entries(text) {
            Some(entries) => preferred(entries, tags),
            None => None,
        },
        None => None,
    }
}

/// At most one entry is the preferred one, so `preferred` is its language.
pub proof fn lemma_preferred_is(entries: Seq<EntryView>, tags: Set<Seq<char>>, i: int)
    requires
        is_preferred(entries, tags, i),
    ensures
        preferred(entries, tags) == Some(canonical(entries[i].tag)),
        tags.contains(canonical(entries[i].tag)),
{
    let k = choose|k: int| is_preferred(entries, tags, k);
    assert(is_candidate(entries[k], tags));
    assert(is_candidate(entries[i], tags));
    assert(k == i);
}

/// Where no entry is a candidate, there is no preferred language.
pub proof fn lemma_preferred_none(entries: Seq<EntryView>, tags: Set<Seq<char>>)
    requires
        forall|j: int| 0 <= j < entries.len() ==> !is_candidate(#[trigger] entries[j], tags),
    ensures
        preferred(entries, tags) is None,
{
}

/// A candidate of full quality with no candidate of full quality in front of it is
/// the preferred entry, whatever follows it: no quality is above 1.
pub proof fn lemma_full_quality_ends_the_scan(
    entries: Seq<EntryView>,
    tags: Set<Seq<char>>,
    i: int,
)
    requires
        0 <= i < entries.len(),
        is_candidate(entries[i], tags),
        entries[i].quality == FULL_QUALITY,
        forall|j: int| 0 <= j < entries.len() ==> (#[trigger] entries[j]).quality <= FULL_QUALITY,
        forall|j: int|
            0 <= j < i && is_candidate(#[trigger] entries[j], tags) ==> entries[j].quality
                < FULL_QUALITY,
    ensures
        preferred(entries, tags) == Some(canonical(entries[i].tag)),
{
    assert(is_preferred(entries, tags, i));
    lemma_preferred_is(entries, tags, i);
}

/// An entry that is no candidate does not count: with it or without it, the
/// preferred language is the same. So an entry of full quality whose language is
/// not served never ends the scan.
pub proof fn lemma_other_entries_do_not_count(
    entries: Seq<EntryView>,
    tags: Set<Seq<char>>,
    i: int,
)
    requires
        0 <= i < entries.len(),
        !is_candidate(entries[i], tags),
    ensures
        preferred(entries.remove(i), tags) == preferred(entries, tags),
{
    let fewer = entries.remove(i);
    assert forall|j: int| 0 <= j < fewer.len() implies fewer[j] == entries[if j < i {
        j
    } else {
        j + 1
    }] by {}
    if exists|k: int| is_preferred(entries, tags, k) {
        let k = choose|k: int| is_preferred(entries, tags, k);
        let moved = if k < i {
            k
        } else {
            k - 1
        };
        assert(fewer[moved] == entries[k]);
        assert forall|j: int|
            0 <= j < fewer.len() && is_candidate(
                #[trigger] fewer[j],
                tags,
            ) implies fewer[j].quality <= fewer[moved].quality by {
            let source = if j < i {
                j
            } else {
                j + 1
            };
            assert(is_candidate(entries[source], tags));
        }
        assert forall|j: int|
            0 <= j < moved && is_candidate(
                #[trigger] fewer[j],
                tags,
            ) implies fewer[j].quality < fewer[moved].quality by {
            let source = if j < i {
                j
            } else {
                j + 1
            };
            assert(is_candidate(entries[source], tags));
        }
        lemma_preferred_is(fewer, tags, moved);
        lemma_preferred_is(entries, tags, k);
    } else if exists|k: int| is_preferred(fewer, tags, k) {
        let moved = choose|k: int| is_preferred(fewer, tags, k);
        let k = if moved < i {
            moved
        } else {
            moved + 1
        };
        assert(fewer[moved] == entries[k]);
        assert forall|j: int|
            0 <= j < entries.len() && is_candidate(
                #[trigger] entries[j],
                tags,
            ) implies entries[j].quality <= entries[k].quality by {
            let target = if j < i {
                j
            } else {
                j - 1
            };
            assert(fewer[target] == entries[j]);
            assert(is_candidate(fewer[target], tags));
        }
        assert forall|j: int|
            0 <= j < k && is_candidate(
                #[trigger] entries[j],
                tags,
            ) implies entries[j].quality < entries[k].quality by {
            let target = if j < i {
                j
            } else {
                j - 1
            };
            assert(fewer[target] == entries[j]);
            assert(is_candidate(fewer[target], tags));
        }
        assert(is_preferred(entries, tags, k));
    }
}

/// A preferred language is one that the deployment serves.
pub proof fn lemma_preferred_supported(entries: Seq<EntryView>, tags: Set<Seq<char>>)
    ensures
        preferred(entries, tags) matches Some(tag) ==> tags.contains(tag),
{
    if exists|i: int| is_preferred(entries, tags, i) {
        let k = choose|k: int| is_preferred(entries, tags, k);
        lemma_preferred_is(entries, tags, k);
    }
}

/// A negotiated language is one that the deployment serves.
pub proof fn lemma_negotiated_supported(header: Option<Seq<char>>, tags: Set<Seq<char>>)
    ensures
        negotiated(header, tags) matches Some(tag) ==> tags.contains(tag),
{
    if let Some(text) = header {
        if let Some(entries) = header_entries(text) {
            lemma_preferred_supported(entries, tags);
        }
    }
}

/// Tells whether `c` is a decimal digit.
fn digit(c: char) -> (r: bool)
    ensures
        r == is_digit(c),
{
    '0' <= c && c <= '9'
}

/// The digit at position `i`, 0 behind the end of `s`, `None` where the
/// character there is no digit.
fn read_digit(s: &[char], i: usize) -> (r: Option<u16>)
    ensures
        i < s.len() && !is_digit(s@[i as int]) ==> r is None,
        !(i < s.len() && !is_digit(s@[i as int])) ==> r == Some(digit_at(s@, i as int) as u16),
        r matches Some(d) ==> d <= 9,
{
    if i >= s.len() {
        Some(0)
    } else if digit(s[i]) {
        Some((s[i] as u8 - '0' as u8) as u16)
    } else {
        None
    }
}

/// Reads a quality value into thousandths.
pub fn parse_quality(text: &str) -> (r: Option<u16>)
    ensures
        match quality_value(text@) {
            Some(value) => r == Some(value as u16) && value <= FULL_QUALITY,
            None => r is None,
        },
{
    let chars = chars_of(text);
    let s = chars.as_slice();
    if s.len() == 0 || s.len() > 5 {
        return None;
    }
    if s.len() >= 2 && s[1] != '.' {
        return None;
    }
    let units = match read_digit(s, 0) {
        Some(d) => d,
        None => { return None; },
    };
    let tenths = match read_digit(s, 2) {
        Some(d) => d,
        None => { return None; },
    };
    let hundredths = match read_digit(s, 3) {
        Some(d) => d,
        None => { return None; },
    };
    let thousandths = match read_digit(s, 4) {
        Some(d) => d,
        None => { return None; },
    };
    let value: u16 = units * 1000 + tenths * 100 + hundredths * 10 + thousandths;
    if value <= FULL_QUALITY {
        Some(value)
    } else {
        None
    }
}

/// One entry of an `Accept-Language` header: a language range with its quality.
#[derive(Debug, PartialEq, Eq)]
pub struct AcceptLanguageEntry {
    tag: String,
    quality: u16,
}

impl View for AcceptLanguageEntry {
    type V = EntryView;

    /// The quality is capped at 1, which the invariant makes the quality itself:
    /// so contracts can speak of entries that no code has looked at yet.
    closed spec fn view(&self) -> EntryView {
        EntryView {
            tag: self.tag@,
            quality: if self.quality <= FULL_QUALITY {
                self.quality as nat
            } else {
                FULL_QUALITY as nat
            },
        }
    }
}

impl AcceptLanguageEntry {
    /// Holds of every entry: its quality is at most 1.
    #[verifier::type_invariant]
    pub closed spec fn wf(self) -> bool {
        self.quality <= FULL_QUALITY
    }

    /// An entry of the given range and quality, the quality in thousandths.
    /// `None` where the quality is above 1.
    pub fn new(tag: &str, quality: u16) -> (r: Option<AcceptLanguageEntry>)
        ensures
            match r {
                Some(entry) => quality <= FULL_QUALITY && entry@.tag == tag@ && entry@.quality
                    == quality,
                None => quality > FULL_QUALITY,
            },
    {
        if quality <= FULL_QUALITY {
            Some(AcceptLanguageEntry { tag: tag.to_owned(), quality })
        } else {
            None
        }
    }

    /// The entry that an item of the header makes. `None` where the item's
    /// quality cannot be read.
    pub fn from_item(item: &HeaderItem) -> (r: Option<AcceptLanguageEntry>)
        ensures
            match entry_of(item@) {
                Some(entry) => r matches Some(e) && e@ == entry,
                None => r is None,
            },
    {
        match parse_quality(item.quality.as_str()) {
            Some(quality) => Some(AcceptLanguageEntry { tag: item.range.clone(), quality }),
            None => None,
        }
    }

    /// The language range as it was read.
    pub fn tag(&self) -> (tag: &str)
        ensures
            tag@ == self@.tag,
    {
        self.tag.as_str()
    }

    /// The quality in thousandths, from 0 to 1000.
    pub fn quality(&self) -> (quality: u16)
        ensures
            quality == self@.quality,
            quality <= FULL_QUALITY,
    {
        proof {
            use_type_invariant(self);
        }
        self.quality
    }

    /// The language of the entry: its range in canonical form.
    pub fn language(&self) -> (tag: LanguageTag)
        ensures
            tag@ == canonical(self@.tag),
    {
        LanguageTag::parse(self.tag.as_str())
    }
}

impl Clone for AcceptLanguageEntry {
    fn clone(&self) -> (r: AcceptLanguageEntry)
        ensures
            r@ == self@,
    {
        proof {
            use_type_invariant(self);
        }
        AcceptLanguageEntry { tag: self.tag.clone(), quality: self.quality }
    }
}

/// What a list of entries stands for.
pub open spec fn entry_views(entries: Seq<AcceptLanguageEntry>) -> Seq<EntryView> {
    Seq::new(entries.len(), |i: int| entries[i]@)
}

/// What a list of entries stands for, where there is one.
pub open spec fn read_views(entries: Option<Vec<AcceptLanguageEntry>>) -> Option<Seq<EntryView>> {
    match entries {
        Some(entries) => Some(entry_views(entries@)),
        None => None,
    }
}

/// Reads a header into its entries, in the order in which the client wrote them.
/// `None` where the text is no header value.
pub fn parse_accept_language(header: &str) -> (entries: Option<Vec<AcceptLanguageEntry>>)
    ensures
        read_views(entries) == header_entries(header@),
{
    let items = match read_accept_language(header) {
        Some(items) => items,
        None => { return None; },
    };
    let ghost views = Seq::new(items@.len(), |i: int| items@[i]@);
    let mut entries: Vec<AcceptLanguageEntry> = Vec::new();
    let mut i: usize = 0;
    while i < items.len()
        invariant
            i <= items.len(),
            views == Seq::new(items@.len(), |i: int| items@[i]@),
            entry_views(entries@) == entries_of(views.take(i as int)),
        decreases items.len() - i,
    {
        let ghost before_entries = entries@;
        proof {
            assert(views.take(i + 1).drop_last() =~= views.take(i as int));
            assert(views.take(i + 1).last() == items@[i as int]@);
        }
        match AcceptLanguageEntry::from_item(&items[i]) {
            Some(entry) => {
                let ghost view = entry@;
                entries.push(entry);
                assert(entry_views(entries@) =~= entry_views(before_entries).push(view));
            },
            None => {},
        }
        i += 1;
    }
    proof {
        assert(views.take(items@.len() as int) =~= views);
    }
    Some(entries)
}

/// What negotiation found.
#[derive(Debug, PartialEq, Eq)]
pub enum NegotiationResult {
    /// The client's preferred language among those served.
    Resolved(LanguageTag),
    /// The client states no preference that the deployment can meet.
    NoPreference,
}

impl View for NegotiationResult {
    type V = Option<Seq<char>>;

    open spec fn view(&self) -> Option<Seq<char>> {
        match *self {
            NegotiationResult::Resolved(tag) => Some(tag@),
            NegotiationResult::NoPreference => None,
        }
    }
}

/// Picks the preferred entry of a header.
///
/// Among the entries whose language the deployment serves and whose quality is
/// not 0, the one with the highest quality is preferred, and of several with the
/// same quality the first. The scan stops at the first such entry of quality 1:
/// no later entry can outrank it. An entry of quality 1 whose language is not
/// served does not stop it. Where no entry is such a candidate, there is no
/// preference.
pub fn prefer(
    entries: &Vec<AcceptLanguageEntry>,
    supported: &SupportedLocaleSet,
) -> (r: NegotiationResult)
    ensures
        r@ == preferred(entry_views(entries@), supported@.tags),
        r matches NegotiationResult::Resolved(tag) ==> supported@.tags.contains(tag@),
{
    let ghost all = entry_views(entries@);
    let ghost tags = supported@.tags;
    let mut best: Option<LanguageTag> = None;
    let mut best_quality: u16 = 0;
    let ghost mut best_index: int = 0;
    let mut i: usize = 0;
    while i < entries.len()
        invariant
            i <= entries.len(),
            all == entry_views(entries@),
            tags == supported@.tags,
            best_quality < FULL_QUALITY,
            match best {
                Some(tag) => {
                    &&& is_preferred(all.take(i as int), tags, best_index)
                    &&& tag@ == canonical(all[best_index].tag)
                    &&& best_quality == all[best_index].quality
                },
                None => {
                    &&& best_quality == 0
                    &&& forall|j: int| 0 <= j < i ==> !is_candidate(#[trigger] all[j], tags)
                },
            },
        decreases entries.len() - i,
    {
        let entry = &entries[i];
        let quality = entry.quality();
        let ghost seen = all.take(i as int);
        proof {
            assert(all.take(i + 1) =~= seen.push(entry@));
            assert forall|j: int| 0 <= j < i implies seen[j] == all[j] by {}
        }
        if quality > best_quality {
            let tag = entry.language();
            if supported.contains(&tag) {
                if quality == FULL_QUALITY {
                    proof {
                        lemma_quality_bound(entries@);
                        if best is Some {
                            assert forall|j: int|
                                0 <= j < i && is_candidate(
                                    #[trigger] all[j],
                                    tags,
                                ) implies all[j].quality < FULL_QUALITY by {
                                assert(is_candidate(seen[j], tags));
                            }
                        }
                        lemma_full_quality_ends_the_scan(all, tags, i as int);
                    }
                    return NegotiationResult::Resolved(tag);
                }
                proof {
                    let next = seen.push(entry@);
                    assert forall|j: int|
                        0 <= j < i && is_candidate(
                            #[trigger] next[j],
                            tags,
                        ) implies next[j].quality < quality by {
                        assert(next[j] == seen[j]);
                        assert(is_candidate(seen[j], tags));
                    }
                    assert(is_preferred(next, tags, i as int));
                    best_index = i as int;
                }
                best = Some(tag);
                best_quality = quality;
            } else {
                proof {
                    lemma_keeps_preference(seen, entry@, tags, best_index);
                }
            }
        } else {
            proof {
                lemma_keeps_preference(seen, entry@, tags, best_index);
            }
        }
        i += 1;
    }
    proof {
        assert(all.take(entries@.len() as int) =~= all);
        if best is Some {
            lemma_preferred_is(all, tags, best_index);
        } else {
            lemma_preferred_none(all, tags);
        }
    }
    match best {
        Some(tag) => NegotiationResult::Resolved(tag),
        None => NegotiationResult::NoPreference,
    }
}

/// The text of a header that may be absent.
pub open spec fn header_text(header: Option<&str>) -> Option<Seq<char>> {
    match header {
        Some(text) => Some(text@),
        None => None,
    }
}

/// Picks the language to serve from the `Accept-Language` header of a request:
/// the preferred entry of the header, as `prefer` picks it. Without a header, or
/// where the header cannot be read, there is no preference.
pub fn negotiate(header: Option<&str>, supported: &SupportedLocaleSet) -> (r: NegotiationResult)
    ensures
        r@ == negotiated(header_text(header), supported@.tags),
        r matches NegotiationResult::Resolved(tag) ==> supported@.tags.contains(tag@),
{
    let text = match header {
        Some(text) => text,
        None => { return NegotiationResult::NoPreference; },
    };
    match parse_accept_language(text) {
        Some(entries) => prefer(&entries, supported),
        None => NegotiationResult::NoPreference,
    }
}

/// No entry has a quality above 1.
pub proof fn lemma_quality_bound(entries: Seq<AcceptLanguageEntry>)
    ensures
        forall|j: int|
            0 <= j < entries.len() ==> (#[trigger] entry_views(entries)[j]).quality
                <= FULL_QUALITY,
{
}

/// An entry that is no candidate, or whose quality is not above that of the
/// preferred entry so far, leaves the preference as it was.
proof fn lemma_keeps_preference(
    seen: Seq<EntryView>,
    entry: EntryView,
    tags: Set<Seq<char>>,
    best_index: int,
)
    ensures
        is_preferred(seen, tags, best_index) && (!is_candidate(entry, tags) || entry.quality
            <= seen[best_index].quality) ==> is_preferred(seen.push(entry), tags, best_index),
        (forall|j: int| 0 <= j < seen.len() ==> !is_candidate(#[trigger] seen[j], tags))
            && !is_candidate(entry, tags) ==> (forall|j: int|
            0 <= j < seen.push(entry).len() ==> !is_candidate(
                #[trigger] seen.push(entry)[j],
                tags,
            )),
{
    let pushed = seen.push(entry);
    if is_preferred(seen, tags, best_index) && (!is_candidate(entry, tags) || entry.quality
        <= seen[best_index].quality) {
        assert forall|j: int|
            0 <= j < pushed.len() && is_candidate(
                #[trigger] pushed[j],
                tags,
            ) implies pushed[j].quality <= pushed[best_index].quality by {
            if j < seen.len() {
                assert(pushed[j] == seen[j]);
                assert(is_candidate(seen[j], tags));
            }
        }
        assert forall|j: int|
            0 <= j < best_index && is_candidate(
                #[trigger] pushed[j],
                tags,
            ) implies pushed[j].quality < pushed[best_index].quality by {
            assert(pushed[j] == seen[j]);
            assert(is_candidate(seen[j], tags));
        }
    }
    if (forall|j: int| 0 <= j < seen.len() ==> !is_candidate(#[trigger] seen[j], tags))
        && !is_candidate(entry, tags) {
        assert forall|j: int| 0 <= j < pushed.len() implies !is_candidate(
            #[trigger] pushed[j],
            tags,
        ) by {
            if j < seen.len() {
                assert(pushed[j] == seen[j]);
            }
        }
    }
}

} // verus!
