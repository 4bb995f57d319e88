use catalog_notify::format::{construct_magnet_link, format_fallback, format_notification};
use catalog_notify::{CatalogEntry, Release};

const TRACKERS: [&str; 8] = [
    "udp://open.demonii.com:1337/announce",
    "udp://tracker.openbittorrent.com:80",
    "udp://tracker.coppersurfer.tk:6969",
    "udp://glotorrents.pw:6969/announce",
    "udp://tracker.opentrackr.org:1337/announce",
    "udp://torrent.gresille.org:80/announce",
    "udp://p4p.arenabg.com:1337",
    "udp://tracker.leechers-paradise.org:6969",
];

fn expected_magnet(hash: &str, name: &str) -> String {
    let tail: String = TRACKERS
        .iter()
        .map(|t| format!("&tr={}", urlencoding::encode(t)))
        .collect();
    format!(
        "`magnet:?xt=urn:btih:{}&dn={}{}`",
        hash,
        urlencoding::encode(name),
        tail
    )
}

fn sample_entry() -> CatalogEntry {
    CatalogEntry {
        id: 52,
        title: "Blade Runner (1982)".to_string(),
        year: 1982,
        cover_url: "https://covers.example/blade.jpg".to_string(),
        releases: vec![
            Release {
                url: "https://files.example/blade.torrent".to_string(),
                hash: "AB12cd34".to_string(),
                quality: "1080p".to_string(),
            },
            Release {
                url: "https://files.example/blade-720.torrent".to_string(),
                hash: "ZZ99".to_string(),
                quality: "720p".to_string(),
            },
        ],
    }
}

#[test]
fn magnet_link_is_exact() {
    let got = construct_magnet_link("AB12cd34", "Blade Runner (1982)");
    assert_eq!(got, expected_magnet("AB12cd34", "Blade Runner (1982)"));
}

#[test]
fn magnet_link_percent_encodes_the_name() {
    let got = construct_magnet_link("deadbeef", "Foo Bar");
    assert!(got.contains("&dn=Foo%20Bar"));
    assert!(got.contains("udp%3A%2F%2Fopen.demonii.com%3A1337%2Fannounce"));
    assert!(!got.contains("&dn=Foo Bar"));
}

#[test]
fn entry_without_releases_yields_nothing_to_send() {
    let mut e = sample_entry();
    e.releases.clear();
    assert!(format_notification(&e).is_none());
    assert!(format_fallback(&e, false).is_none());
}

#[test]
fn caption_is_exact_and_uses_first_release() {
    let e = sample_entry();
    let n = format_notification(&e).expect("entry has releases");
    let magnet = expected_magnet("AB12cd34", "Blade Runner (1982)");
    let expected = format!(
        "Blade Runner (1982)\nAño: 1982\nCalidad: 1080p\n\nMagnet: {}\n\nTorrent URL: https://files.example/blade.torrent",
        magnet
    );
    assert_eq!(n.caption, expected);
    assert_eq!(n.cover_url, "https://covers.example/blade.jpg");
}

#[test]
fn caption_carries_title_year_quality_and_link() {
    let e = sample_entry();
    let n = format_notification(&e).expect("entry has releases");
    assert!(n.caption.contains("Blade Runner (1982)"));
    assert!(n.caption.contains("1982"));
    assert!(n.caption.contains("1080p"));
    assert!(n.caption.contains("AB12cd34"));
    assert!(n
        .caption
        .contains(urlencoding::encode("Blade Runner (1982)").as_ref()));
}

#[test]
fn fallback_names_the_cover() {
    let e = sample_entry();
    let plain = format_fallback(&e, false).expect("entry has releases");
    assert!(plain.starts_with("Nueva Película: Blade Runner (1982)"));
    assert!(plain.contains("\nCover: https://covers.example/blade.jpg"));
    let marked = format_fallback(&e, true).expect("entry has releases");
    assert!(marked.contains("\nCover (URL inválida): https://covers.example/blade.jpg"));
}
