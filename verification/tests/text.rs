use mahakala::text::parse_i64;

#[test]
fn parse_i64_matches_std() {
    for s in ["0", "+5", "-17", "9223372036854775807", "-9223372036854775808", "9223372036854775808", "-9223372036854775809", "", "-", "+", "1a", " 1", "00012", "99999999999999999999999"] {
        assert_eq!(parse_i64(s), s.parse::<i64>().ok(), "{}", s);
    }
    assert_eq!(parse_i64("-42"), Some(-42));
    assert_eq!(parse_i64("1_000"), None);
}
