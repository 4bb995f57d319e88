use catalog_notify::Watermark;

#[test]
fn fresh_watermark_is_unset() {
    let w = Watermark::new();
    assert!(!w.is_set());
    assert_eq!(w.current(), 0);
}

#[test]
fn baseline_sets_once() {
    let mut w = Watermark::new();
    assert!(w.baseline(50));
    assert!(w.is_set());
    assert_eq!(w.current(), 50);
    assert!(!w.baseline(10));
    assert_eq!(w.current(), 50);
}

#[test]
fn advance_in_order_ends_at_larger() {
    let mut w = Watermark::new();
    assert!(w.advance(5));
    assert!(w.advance(7));
    assert_eq!(w.current(), 7);
}

#[test]
fn advance_out_of_order_ends_at_larger() {
    let mut w = Watermark::new();
    assert!(w.advance(7));
    assert!(!w.advance(5));
    assert_eq!(w.current(), 7);
}

#[test]
fn advance_never_regresses() {
    let mut w = Watermark::new();
    w.baseline(100);
    assert!(!w.advance(99));
    assert_eq!(w.current(), 100);
    assert!(w.advance(101));
    assert_eq!(w.current(), 101);
}
