use catalog_notify::page::evaluate_page;
use catalog_notify::textutil::{trim_string, u32_to_decimal};

#[test]
fn page_with_interesting_title_is_reported() {
    let html = "<html><head><title>  Hidden Stash  </title></head><body>x</body></html>";
    assert_eq!(evaluate_page(html), Some("Hidden Stash".to_string()));
}

#[test]
fn undesired_marker_title_is_skipped() {
    let html = "<html><head><title>DESCARGAS, PELICULAS Y SERIES</title></head></html>";
    assert_eq!(evaluate_page(html), None);
}

#[test]
fn padded_marker_title_is_skipped() {
    let html = "<html><head><title>  DESCARGAS, PELICULAS Y SERIES\n</title></head></html>";
    assert_eq!(evaluate_page(html), None);
}

#[test]
fn page_without_title_is_skipped() {
    let html = "<html><body>no title here</body></html>";
    assert_eq!(evaluate_page(html), None);
}

#[test]
fn whitespace_only_title_is_skipped() {
    let html = "<html><head><title>   \n\t </title></head></html>";
    assert_eq!(evaluate_page(html), None);
}

#[test]
fn trim_strips_both_ends_only() {
    assert_eq!(trim_string("  a b \t\n"), "a b".to_string());
    assert_eq!(trim_string(""), "".to_string());
    assert_eq!(trim_string(" \r\n "), "".to_string());
    assert_eq!(trim_string("solid"), "solid".to_string());
}

#[test]
fn decimal_formatting_is_plain() {
    assert_eq!(u32_to_decimal(0), "0".to_string());
    assert_eq!(u32_to_decimal(7), "7".to_string());
    assert_eq!(u32_to_decimal(2021), "2021".to_string());
    assert_eq!(u32_to_decimal(4294967295), "4294967295".to_string());
}
