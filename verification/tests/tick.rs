use catalog_notify::tick::{
    catalog_query_url, fan_out, plan_fetch_limit, resolve_fetch, select_new, tick, TickStep,
};
use catalog_notify::{CatalogEntry, Release, Watermark};

fn entry(id: u32) -> CatalogEntry {
    CatalogEntry {
        id,
        title: format!("Movie {}", id),
        year: 2024,
        cover_url: format!("https://covers.example/{}.jpg", id),
        releases: vec![Release {
            url: format!("https://files.example/{}.torrent", id),
            hash: format!("hash{}", id),
            quality: "1080p".to_string(),
        }],
    }
}

fn ids(v: &[CatalogEntry]) -> Vec<u32> {
    v.iter().map(|e| e.id).collect()
}

#[test]
fn first_tick_sets_baseline_without_broadcast() {
    let mut wm = Watermark::new();
    let step = tick(&mut wm, Some(vec![entry(50)]));
    match step {
        TickStep::Baselined { id } => assert_eq!(id, 50),
        _ => panic!("expected a baseline"),
    }
    assert_eq!(wm.current(), 50);
}

#[test]
fn second_tick_detects_and_broadcasts_in_order() {
    let mut wm = Watermark::new();
    wm.baseline(50);
    let batch = vec![entry(52), entry(51), entry(50), entry(49)];
    let step = tick(&mut wm, Some(batch));
    match step {
        TickStep::Broadcast { entries, advanced_to } => {
            assert_eq!(ids(&entries), vec![51, 52]);
            assert_eq!(advanced_to, 52);
        }
        _ => panic!("expected a broadcast"),
    }
    assert_eq!(wm.current(), 52);
}

#[test]
fn tick_with_nothing_new_changes_nothing() {
    let mut wm = Watermark::new();
    wm.baseline(50);
    let step = tick(&mut wm, Some(vec![entry(50), entry(49)]));
    assert!(matches!(step, TickStep::NoNews));
    assert_eq!(wm.current(), 50);
}

#[test]
fn failed_fetch_skips_tick() {
    let mut wm = Watermark::new();
    wm.baseline(50);
    let step = tick(&mut wm, None);
    assert!(matches!(step, TickStep::Skipped));
    assert_eq!(wm.current(), 50);
}

#[test]
fn empty_fetch_skips_tick() {
    let mut wm = Watermark::new();
    let step = tick(&mut wm, Some(Vec::new()));
    assert!(matches!(step, TickStep::Skipped));
    assert!(!wm.is_set());
}

#[test]
fn detection_takes_leading_run_reversed() {
    let batch = vec![entry(10), entry(8), entry(6), entry(4)];
    let picked = select_new(batch, 6);
    assert_eq!(ids(&picked), vec![8, 10]);
}

#[test]
fn detection_stops_at_first_stale_entry() {
    // An out-of-order batch: only the contiguous leading run is detected.
    let batch = vec![entry(10), entry(5), entry(9)];
    let picked = select_new(batch, 6);
    assert_eq!(ids(&picked), vec![10]);
}

#[test]
fn empty_subscriber_set_sends_nothing_but_advances() {
    let mut wm = Watermark::new();
    wm.baseline(50);
    let step = tick(&mut wm, Some(vec![entry(52), entry(51)]));
    let entries = match step {
        TickStep::Broadcast { entries, .. } => entries,
        _ => panic!("expected a broadcast"),
    };
    let nobody: Vec<i64> = Vec::new();
    let plan = fan_out(entries.len(), &nobody);
    assert!(plan.is_empty());
    assert_eq!(wm.current(), 52);
}

#[test]
fn fan_out_is_entry_major() {
    let recipients = vec![7i64, 9i64];
    let plan = fan_out(2, &recipients);
    let pairs: Vec<(usize, i64)> = plan.iter().map(|d| (d.entry_index, d.recipient)).collect();
    assert_eq!(pairs, vec![(0, 7), (0, 9), (1, 7), (1, 9)]);
}

#[test]
fn resolve_fetch_accepts_ok_with_movies() {
    let movies = vec![entry(1), entry(2)];
    let got = resolve_fetch(&"ok".to_string(), Some(movies));
    assert_eq!(ids(&got), vec![1, 2]);
}

#[test]
fn resolve_fetch_rejects_bad_status() {
    let movies = vec![entry(1)];
    let got = resolve_fetch(&"error".to_string(), Some(movies));
    assert!(got.is_empty());
}

#[test]
fn resolve_fetch_treats_missing_movies_as_empty() {
    let got = resolve_fetch(&"ok".to_string(), None);
    assert!(got.is_empty());
}

#[test]
fn baseline_tick_fetches_a_single_entry() {
    let mut wm = Watermark::new();
    assert_eq!(plan_fetch_limit(&wm, 10), 1);
    wm.baseline(50);
    assert_eq!(plan_fetch_limit(&wm, 10), 10);
}

#[test]
fn catalog_query_names_sort_order_and_limit() {
    assert_eq!(
        catalog_query_url(10),
        "https://yts.mx/api/v2/list_movies.json?sort_by=date_added&order_by=desc&limit=10"
    );
    assert_eq!(
        catalog_query_url(1),
        "https://yts.mx/api/v2/list_movies.json?sort_by=date_added&order_by=desc&limit=1"
    );
}
