use router_flow::text::{short_id, truncate};

#[test]
fn short_id_keeps_eight_bytes() {
    assert_eq!(short_id("67e55044-10b1-426f-9247-bb680e5fe0c8"), "67e55044");
    assert_eq!(short_id("12345678"), "12345678");
    assert_eq!(short_id("abc"), "abc");
    assert_eq!(short_id(""), "");
}

#[test]
fn truncate_fits_width() {
    assert_eq!(truncate("hello world", 3), "");
    assert_eq!(truncate("hello", 5), "hello");
    assert_eq!(truncate("hello world", 8), "hello...");
    assert_eq!(truncate("hello world", 4), "h...");
    assert_eq!(truncate("", 10), "");
    assert!(truncate("a long summary line", 10).len() <= 10);
}
