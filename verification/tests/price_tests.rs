use price_sampler::digits::{parse_u64, render_u64};
use price_sampler::price::{parse_price, render_price, sample_value, SCALE};

#[test]
fn parse_u64_accepts_digit_runs() {
    assert_eq!(parse_u64("0"), Some(0));
    assert_eq!(parse_u64("42"), Some(42));
    assert_eq!(parse_u64("007"), Some(7));
    assert_eq!(parse_u64("18446744073709551615"), Some(u64::MAX));
}

#[test]
fn parse_u64_rejects_everything_else() {
    assert_eq!(parse_u64(""), None);
    assert_eq!(parse_u64("4a2"), None);
    assert_eq!(parse_u64("-3"), None);
    assert_eq!(parse_u64(" 3"), None);
    assert_eq!(parse_u64("18446744073709551616"), None);
}

#[test]
fn render_u64_gives_canonical_decimals() {
    assert_eq!(render_u64(0), "0");
    assert_eq!(render_u64(7), "7");
    assert_eq!(render_u64(26123), "26123");
    assert_eq!(render_u64(u64::MAX), "18446744073709551615");
}

#[test]
fn parse_price_scales_by_a_hundred_million() {
    assert_eq!(parse_price("5"), Some(5 * SCALE));
    assert_eq!(parse_price("26123.45"), Some(2_612_345_000_000));
    assert_eq!(parse_price("26123.45000000"), Some(2_612_345_000_000));
    assert_eq!(parse_price("0.00000001"), Some(1));
    assert_eq!(parse_price("1.5"), Some(150_000_000));
}

#[test]
fn parse_price_rejects_malformed_texts() {
    assert_eq!(parse_price(""), None);
    assert_eq!(parse_price("abc"), None);
    assert_eq!(parse_price(".5"), None);
    assert_eq!(parse_price("1."), None);
    assert_eq!(parse_price("1.2.3"), None);
    assert_eq!(parse_price("1.234567891"), None);
    assert_eq!(parse_price("-1.5"), None);
    assert_eq!(parse_price("1e3"), None);
}

#[test]
fn parse_price_rejects_overflow() {
    assert_eq!(parse_price("18446744073709551616"), None);
    assert_eq!(parse_price("999999999999.0"), None);
}

#[test]
fn sample_value_substitutes_zero_for_bad_prices() {
    assert_eq!(sample_value("abc"), 0);
    assert_eq!(sample_value(""), 0);
    assert_eq!(sample_value("999999999999999999999999"), 0);
    assert_eq!(sample_value("2.5"), 250_000_000);
}

#[test]
fn render_price_drops_trailing_zeros() {
    assert_eq!(render_price(150_000_000), "1.5");
    assert_eq!(render_price(5 * SCALE), "5");
    assert_eq!(render_price(2_612_345_000_000), "26123.45");
    assert_eq!(render_price(1), "0.00000001");
    assert_eq!(render_price(0), "0");
}

#[test]
fn render_price_inverts_parse_price() {
    for text in ["1.5", "26123.45", "0.00000001", "5", "30000.50000001"] {
        let v = parse_price(text).unwrap();
        let back = render_price(v);
        assert_eq!(parse_price(&back), Some(v));
    }
}
