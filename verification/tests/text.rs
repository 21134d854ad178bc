use cleanbot::text::decimal_text;

#[test]
fn decimal_of_small_and_large() {
    assert_eq!(decimal_text(0), "0");
    assert_eq!(decimal_text(7), "7");
    assert_eq!(decimal_text(10), "10");
    assert_eq!(decimal_text(1440), "1440");
    assert_eq!(decimal_text(u64::MAX), u64::MAX.to_string());
    for n in [99u64, 100, 101, 123_456_789, 1_000_000_000_000] {
        assert_eq!(decimal_text(n), n.to_string());
    }
}
