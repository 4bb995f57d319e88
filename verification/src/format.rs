//! The notification formatter: one catalog entry becomes a display message
//! and a peer-to-peer resource link derived from the release's content hash.
//!
//! The link appends a fixed list of well-known announce endpoints to the
//! hash and percent-encodes the display name; the message carries title,
//! year, quality, the link, and the original download URL. An entry without
//! releases yields nothing to send, which the caller must treat as a skip,
//! not a failure.

use vstd::prelude::*;

use crate::entry::CatalogEntry;
use crate::textutil::{
    contains_seq, decimal_of, lemma_concat_contains, lemma_contains_in_part, u32_to_decimal,
};

verus! {

/// What `urlencoding::encode` returns for `s`: a pure function of the
/// characters alone, stated only by name since it works byte-wise on the
/// UTF-8 form of `s`.
pub uninterp spec fn encoded_of(s: Seq<char>) -> Seq<char>;

/// Relies on `urlencoding::encode`: percent-encodes every byte of the
/// UTF-8 form of `s` except ASCII alphanumerics and `-`, `_`, `.`, `~`.
#[verifier::external_body]
fn percent_encode(s: &str) -> (r: String)
    ensures
        r@ == encoded_of(s@),
{
    urlencoding::encode(s).into_owned()
}

/// The announce endpoints appended to every resource link, each
/// percent-encoded behind an `&tr=` parameter.
pub open spec fn tracker_tail() -> Seq<char> {
    "&tr="@ + encoded_of("udp://open.demonii.com:1337/announce"@) + "&tr="@ + encoded_of(
        "udp://tracker.openbittorrent.com:80"@,
    ) + "&tr="@ + encoded_of("udp://tracker.coppersurfer.tk:6969"@) + "&tr="@ + encoded_of(
        "udp://glotorrents.pw:6969/announce"@,
    ) + "&tr="@ + encoded_of("udp://tracker.opentrackr.org:1337/announce"@) + "&tr="@ + encoded_of(
        "udp://torrent.gresille.org:80/announce"@,
    ) + "&tr="@ + encoded_of("udp://p4p.arenabg.com:1337"@) + "&tr="@ + encoded_of(
        "udp://tracker.leechers-paradise.org:6969"@,
    )
}

/// The resource link for content `hash` displayed as `name`: a magnet link
/// in backticks, the name percent-encoded, the tracker list appended.
pub open spec fn magnet_of(hash: Seq<char>, name: Seq<char>) -> Seq<char> {
    "`magnet:?xt=urn:btih:"@ + hash + "&dn="@ + encoded_of(name) + tracker_tail() + "`"@
}

/// Builds the resource link for a release hash and a display name.
pub fn construct_magnet_link(hash: &str, movie_name: &str) -> (r: String)
    ensures
        r@ =~= magnet_of(hash@, movie_name@),
{
    let mut r = String::from_str("`magnet:?xt=urn:btih:");
    r.append(hash);
    r.append("&dn=");
    let enc = percent_encode(movie_name);
    r.append(enc.as_str());
    r.append("&tr=");
    let t = percent_encode("udp://open.demonii.com:1337/announce");
    r.append(t.as_str());
    r.append("&tr=");
    let t = percent_encode("udp://tracker.openbittorrent.com:80");
    r.append(t.as_str());
    r.append("&tr=");
    let t = percent_encode("udp://tracker.coppersurfer.tk:6969");
    r.append(t.as_str());
    r.append("&tr=");
    let t = percent_encode("udp://glotorrents.pw:6969/announce");
    r.append(t.as_str());
    r.append("&tr=");
    let t = percent_encode("udp://tracker.opentrackr.org:1337/announce");
    r.append(t.as_str());
    r.append("&tr=");
    let t = percent_encode("udp://torrent.gresille.org:80/announce");
    r.append(t.as_str());
    r.append("&tr=");
    let t = percent_encode("udp://p4p.arenabg.com:1337");
    r.append(t.as_str());
    r.append("&tr=");
    let t = percent_encode("udp://tracker.leechers-paradise.org:6969");
    r.append(t.as_str());
    r.append("`");
    r
}

/// The notification caption for `entry`, built over its first release:
/// title, year, quality, the resource link, and the download URL.
pub open spec fn caption_of(entry: CatalogEntry) -> Seq<char>
    recommends
        entry.releases@.len() > 0,
{
    let t = entry.releases@[0];
    entry.title@ + "\nAño: "@ + decimal_of(entry.year as int) + "\nCalidad: "@ + t.quality@
        + "\n\nMagnet: "@ + magnet_of(t.hash@, entry.title@) + "\n\nTorrent URL: "@ + t.url@
}

/// The plain-text fallback caption, used when the cover image cannot be
/// sent: it additionally names the cover URL, marking it when it was
/// invalid.
pub open spec fn fallback_of(entry: CatalogEntry, invalid_cover: bool) -> Seq<char>
    recommends
        entry.releases@.len() > 0,
{
    let t = entry.releases@[0];
    "Nueva Película: "@ + entry.title@ + "\nAño: "@ + decimal_of(entry.year as int)
        + "\nCalidad: "@ + t.quality@ + (if invalid_cover {
        "\nCover (URL inválida): "@
    } else {
        "\nCover: "@
    }) + entry.cover_url@ + "\nMagnet: "@ + magnet_of(t.hash@, entry.title@) + "\nTorrent URL: "@
        + t.url@
}

/// A formatted notification: the caption to display and the cover image to
/// attach it to.
pub struct Notification {
    /// The display message.
    pub caption: String,
    /// URL of the cover image the caption accompanies.
    pub cover_url: String,
}

/// Formats the notification for `entry` over its first release, or signals
/// "nothing to send" when the entry has no releases — the caller must then
/// skip delivery entirely.
pub fn format_notification(entry: &CatalogEntry) -> (r: Option<Notification>)
    ensures
        r is None <==> entry.releases@.len() == 0,
        r matches Some(n) ==> n.caption@ =~= caption_of(*entry) && n.cover_url@
            == entry.cover_url@,
{
    if entry.releases.len() == 0 {
        return None;
    }
    let t = &entry.releases[0];
    let mut c = entry.title.clone();
    c.append("\nAño: ");
    let y = u32_to_decimal(entry.year);
    c.append(y.as_str());
    c.append("\nCalidad: ");
    c.append(t.quality.as_str());
    c.append("\n\nMagnet: ");
    let m = construct_magnet_link(t.hash.as_str(), entry.title.as_str());
    c.append(m.as_str());
    c.append("\n\nTorrent URL: ");
    c.append(t.url.as_str());
    Some(Notification { caption: c, cover_url: entry.cover_url.clone() })
}

/// The fallback message for `entry`, or nothing when it has no releases.
pub fn format_fallback(entry: &CatalogEntry, invalid_cover: bool) -> (r: Option<String>)
    ensures
        r is None <==> entry.releases@.len() == 0,
        r matches Some(s) ==> s@ =~= fallback_of(*entry, invalid_cover),
{
    if entry.releases.len() == 0 {
        return None;
    }
    let t = &entry.releases[0];
    let mut c = String::from_str("Nueva Película: ");
    c.append(entry.title.as_str());
    c.append("\nAño: ");
    let y = u32_to_decimal(entry.year);
    c.append(y.as_str());
    c.append("\nCalidad: ");
    c.append(t.quality.as_str());
    if invalid_cover {
        c.append("\nCover (URL inválida): ");
    } else {
        c.append("\nCover: ");
    }
    c.append(entry.cover_url.as_str());
    c.append("\nMagnet: ");
    let m = construct_magnet_link(t.hash.as_str(), entry.title.as_str());
    c.append(m.as_str());
    c.append("\nTorrent URL: ");
    c.append(t.url.as_str());
    Some(c)
}

/// The caption of an entry with releases carries the title, the year, the
/// quality, and a resource link holding the release's content hash and the
/// percent-encoded title.
pub proof fn lemma_caption_parts(entry: CatalogEntry)
    requires
        entry.releases@.len() > 0,
    ensures
        contains_seq(caption_of(entry), entry.title@),
        contains_seq(caption_of(entry), decimal_of(entry.year as int)),
        contains_seq(caption_of(entry), entry.releases@[0].quality@),
        contains_seq(caption_of(entry), entry.releases@[0].hash@),
        contains_seq(caption_of(entry), encoded_of(entry.title@)),
{
    let t = entry.releases@[0];
    let cap = caption_of(entry);
    let year = decimal_of(entry.year as int);
    let mag = magnet_of(t.hash@, entry.title@);
    assert(cap =~= Seq::<char>::empty() + entry.title@ + ("\nAño: "@ + year + "\nCalidad: "@
        + t.quality@ + "\n\nMagnet: "@ + mag + "\n\nTorrent URL: "@ + t.url@));
    lemma_concat_contains(
        Seq::<char>::empty(),
        entry.title@,
        "\nAño: "@ + year + "\nCalidad: "@ + t.quality@ + "\n\nMagnet: "@ + mag
            + "\n\nTorrent URL: "@ + t.url@,
    );
    assert(cap =~= (entry.title@ + "\nAño: "@) + year + ("\nCalidad: "@ + t.quality@
        + "\n\nMagnet: "@ + mag + "\n\nTorrent URL: "@ + t.url@));
    lemma_concat_contains(
        entry.title@ + "\nAño: "@,
        year,
        "\nCalidad: "@ + t.quality@ + "\n\nMagnet: "@ + mag + "\n\nTorrent URL: "@ + t.url@,
    );
    assert(cap =~= (entry.title@ + "\nAño: "@ + year + "\nCalidad: "@) + t.quality@
        + ("\n\nMagnet: "@ + mag + "\n\nTorrent URL: "@ + t.url@));
    lemma_concat_contains(
        entry.title@ + "\nAño: "@ + year + "\nCalidad: "@,
        t.quality@,
        "\n\nMagnet: "@ + mag + "\n\nTorrent URL: "@ + t.url@,
    );
    let before_mag = entry.title@ + "\nAño: "@ + year + "\nCalidad: "@ + t.quality@
        + "\n\nMagnet: "@;
    let after_mag = "\n\nTorrent URL: "@ + t.url@;
    assert(cap =~= before_mag + mag + after_mag);
    assert(mag =~= "`magnet:?xt=urn:btih:"@ + t.hash@ + ("&dn="@ + encoded_of(entry.title@)
        + tracker_tail() + "`"@));
    lemma_concat_contains(
        "`magnet:?xt=urn:btih:"@,
        t.hash@,
        "&dn="@ + encoded_of(entry.title@) + tracker_tail() + "`"@,
    );
    lemma_contains_in_part(before_mag, mag, after_mag, t.hash@);
    assert(mag =~= ("`magnet:?xt=urn:btih:"@ + t.hash@ + "&dn="@) + encoded_of(entry.title@)
        + (tracker_tail() + "`"@));
    lemma_concat_contains(
        "`magnet:?xt=urn:btih:"@ + t.hash@ + "&dn="@,
        encoded_of(entry.title@),
        tracker_tail() + "`"@,
    );
    lemma_contains_in_part(before_mag, mag, after_mag, encoded_of(entry.title@));
}

} // verus!
