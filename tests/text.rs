use analytics_collector::text::decimal;

#[test]
fn decimal_rendering() {
    assert_eq!(decimal(0), "0");
    assert_eq!(decimal(7), "7");
    assert_eq!(decimal(10), "10");
    assert_eq!(decimal(4_000_000_001), "4000000001");
    assert_eq!(decimal(u64::MAX), "18446744073709551615");
}
