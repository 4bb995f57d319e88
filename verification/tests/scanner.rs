use catalog_notify::scanner::parse_pattern;

fn expansion_strings(pattern: &str) -> Vec<String> {
    parse_pattern(pattern).expect("pattern should parse").expansions()
}

#[test]
fn bracketed_range_expands_inclusively() {
    let got = expansion_strings("l[c]a-l[m]a");
    let expected: Vec<String> = ('c'..='m').map(|c| format!("l{}a", c)).collect();
    assert_eq!(got, expected);
    assert_eq!(got.first().map(String::as_str), Some("lca"));
    assert_eq!(got.last().map(String::as_str), Some("lma"));
}

#[test]
fn leading_bracket_expands_inclusively() {
    let got = expansion_strings("[A]bc-[D]bc");
    assert_eq!(got, vec!["Abc", "Bbc", "Cbc", "Dbc"]);
}

#[test]
fn descending_range_is_swapped() {
    let got = expansion_strings("l[m]a-l[c]a");
    let expected: Vec<String> = ('c'..='m').map(|c| format!("l{}a", c)).collect();
    assert_eq!(got, expected);
}

#[test]
fn pattern_without_brackets_is_rejected() {
    assert!(parse_pattern("abc-def").is_none());
}

#[test]
fn pattern_with_mismatched_templates_is_rejected() {
    assert!(parse_pattern("l[c]a-x[m]y").is_none());
}

#[test]
fn pattern_without_dash_is_rejected() {
    assert!(parse_pattern("l[c]a").is_none());
}

#[test]
fn pattern_with_two_dashes_is_rejected() {
    assert!(parse_pattern("l[c]a-l[m]a-x").is_none());
}

#[test]
fn empty_brackets_are_rejected() {
    assert!(parse_pattern("l[]a-l[]a").is_none());
}

#[test]
fn probe_url_appends_to_base() {
    let p = parse_pattern("l[c]a-l[m]a").expect("pattern should parse");
    assert_eq!(
        p.probe_url(b'd'),
        "https://paste.compucalitv.lol/?v=lda".to_string()
    );
}

#[test]
fn parsed_fields_hold_the_template() {
    let p = parse_pattern("l[c]a-l[m]a").expect("pattern should parse");
    assert_eq!(p.start_char, 'c');
    assert_eq!(p.end_char, 'm');
    assert_eq!(p.prefix, "l");
    assert_eq!(p.suffix, "a");
    assert_eq!(p.range(), (b'c', b'm'));
}
