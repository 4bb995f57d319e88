//! Deciding one probed page: extract the page title and judge it.
//!
//! The scan reports a URL when its page has a title that, once trimmed, is
//! neither empty nor the fixed "undesired" marker the probed site serves
//! for uninteresting pages. Fetching the page happens outside the crate;
//! the markup comes in as a plain string.

use vstd::prelude::*;

use crate::textutil::{trim_string, trimmed};

verus! {

/// What the title extraction returns for `html`: the concatenated text of
/// the document's first `title` element, or nothing when it has none. A
/// function of the markup alone.
pub uninterp spec fn title_of(html: Seq<char>) -> Option<Seq<char>>;

/// Relies on scraper (`Html::parse_document`, `Selector::parse`,
/// `Html::select`, `ElementRef::text`): parses `html` and collects the
/// text of the first `title` element. `"title"` is a valid selector, so
/// `Selector::parse` cannot fail.
#[verifier::external_body]
fn extract_title(html: &str) -> (r: Option<String>)
    ensures
        match r {
            Some(t) => title_of(html@) == Some(t@),
            None => title_of(html@) is None,
        },
{
    let document = scraper::Html::parse_document(html);
    let selector = scraper::Selector::parse("title").unwrap();
    match document.select(&selector).next() {
        Some(element) => Some(element.text().collect::<String>()),
        None => None,
    }
}

/// The title the probed site serves for pages with nothing behind them.
pub open spec fn undesired_marker() -> Seq<char> {
    "DESCARGAS, PELICULAS Y SERIES"@
}

/// Judges one probed page: the trimmed title when the page has one that is
/// neither empty nor the undesired marker — the page is then worth
/// reporting — and nothing otherwise.
pub fn evaluate_page(html: &str) -> (r: Option<String>)
    ensures
        match title_of(html@) {
            Some(t) => {
                if trimmed(t).len() > 0 && trimmed(t) != undesired_marker() {
                    r matches Some(x) && x@ == trimmed(t)
                } else {
                    r is None
                }
            },
            None => r is None,
        },
{
    match extract_title(html) {
        Some(t) => {
            let tr = trim_string(t.as_str());
            if tr.as_str().unicode_len() == 0 {
                return None;
            }
            let marker = String::from_str("DESCARGAS, PELICULAS Y SERIES");
            if tr == marker {
                None
            } else {
                Some(tr)
            }
        },
        None => None,
    }
}

} // verus!
