use market_feed::decimal::{digit_of, parse_decimal, FRACTION_DIGITS, UNITS_PER_ONE};
use market_feed::imbalance::{
    measure_imbalance, price_in_window, sum_within, Imbalance, BASIS_POINTS,
};
use market_feed::levels::PriceLevel;

fn level(price: &str, quantity: &str) -> PriceLevel {
    PriceLevel { price: price.to_string(), quantity: quantity.to_string() }
}

#[test]
fn decimals_are_read_in_units_of_a_hundred_millionth() {
    assert_eq!(UNITS_PER_ONE, 100_000_000);
    assert_eq!(FRACTION_DIGITS, 8);
    assert_eq!(parse_decimal("0"), Some(0));
    assert_eq!(parse_decimal("1"), Some(100_000_000));
    assert_eq!(parse_decimal("10.00"), Some(1_000_000_000));
    assert_eq!(parse_decimal("9.99"), Some(999_000_000));
    assert_eq!(parse_decimal("0.014"), Some(1_400_000));
    assert_eq!(parse_decimal("0.00000001"), Some(1));
    assert_eq!(parse_decimal("123.45678901"), Some(12_345_678_901));
    assert_eq!(parse_decimal("5."), Some(500_000_000));
    assert_eq!(parse_decimal("007.5"), Some(750_000_000));
    assert_eq!(parse_decimal("0.0"), Some(0));
}

#[test]
fn what_is_no_decimal_gives_nothing() {
    assert_eq!(parse_decimal(""), None);
    assert_eq!(parse_decimal("."), None);
    assert_eq!(parse_decimal(".5"), None);
    assert_eq!(parse_decimal("-1"), None);
    assert_eq!(parse_decimal("+1"), None);
    assert_eq!(parse_decimal("1e5"), None);
    assert_eq!(parse_decimal("1.2.3"), None);
    assert_eq!(parse_decimal("1,5"), None);
    assert_eq!(parse_decimal(" 1"), None);
    assert_eq!(parse_decimal("1 "), None);
    assert_eq!(parse_decimal("1.5x"), None);
    assert_eq!(parse_decimal("abc"), None);
    assert_eq!(parse_decimal("0.000000001"), None);
    assert_eq!(parse_decimal("1.123456789"), None);
    assert_eq!(parse_decimal("١٢"), None);
}

#[test]
fn decimals_beyond_the_machine_word_give_nothing() {
    assert_eq!(parse_decimal("184467440737.09551615"), Some(u64::MAX));
    assert_eq!(parse_decimal("184467440737.09551616"), None);
    assert_eq!(parse_decimal("184467440738"), None);
    assert_eq!(parse_decimal("184467440737"), Some(18_446_744_073_700_000_000));
    assert_eq!(parse_decimal("18446744073709551615"), None);
    assert_eq!(parse_decimal("18446744073709551616"), None);
    assert_eq!(parse_decimal("99999999999999999999999999"), None);
    assert_eq!(parse_decimal("99999999999999999999999999.x"), None);
}

#[test]
fn digits_have_their_value() {
    assert_eq!(digit_of('0'), Some(0));
    assert_eq!(digit_of('7'), Some(7));
    assert_eq!(digit_of('9'), Some(9));
    assert_eq!(digit_of('/'), None);
    assert_eq!(digit_of(':'), None);
    assert_eq!(digit_of('a'), None);
}

#[test]
fn the_window_includes_its_bounds() {
    assert_eq!(BASIS_POINTS, 10_000);
    assert!(price_in_window(100, 100, 0));
    assert!(!price_in_window(99, 100, 0));
    assert!(!price_in_window(101, 100, 0));
    assert!(price_in_window(95, 100, 500));
    assert!(price_in_window(105, 100, 500));
    assert!(!price_in_window(94, 100, 500));
    assert!(!price_in_window(106, 100, 500));
    assert!(price_in_window(0, 100, 10_000));
    assert!(price_in_window(200, 100, 10_000));
    assert!(!price_in_window(201, 100, 10_000));
    assert!(price_in_window(u64::MAX, u64::MAX, 10_000));
    assert!(price_in_window(0, u64::MAX, 10_000));
    assert!(!price_in_window(0, u64::MAX, 9_999));
    assert!(price_in_window(0, 0, 0));
    assert!(!price_in_window(1, 0, 10_000));
}

#[test]
fn volume_is_the_sum_of_the_quantities_within_the_window() {
    let levels = vec![
        level("100", "1"),
        level("95", "0.5"),
        level("94.99999999", "4"),
        level("105", "0.25"),
        level("105.00000001", "8"),
    ];
    let reference = 100 * UNITS_PER_ONE;
    assert_eq!(sum_within(&levels, reference, 500), Some(175_000_000));
    assert_eq!(sum_within(&levels, reference, 0), Some(100_000_000));
    assert_eq!(sum_within(&levels, reference, 10_000), Some(1_375_000_000));
    assert_eq!(sum_within(&vec![], reference, 500), Some(0));
    assert_eq!(sum_within(&vec![level("100", "x")], reference, 500), None);
    assert_eq!(sum_within(&vec![level("x", "1")], reference, 500), None);
    assert_eq!(sum_within(&vec![level("1", "x")], reference, 500), None);
    assert_eq!(
        sum_within(&vec![level("100", "1"), level("", "1"), level("100", "1")], reference, 500),
        None
    );
}

#[test]
fn large_volumes_add_up_beyond_the_machine_word() {
    let levels = vec![
        level("1", "184467440737.09551615"),
        level("1", "184467440737.09551615"),
        level("1", "184467440737.09551615"),
    ];
    assert_eq!(sum_within(&levels, UNITS_PER_ONE, 0), Some(3 * (u64::MAX as u128)));
}

#[test]
fn imbalance_sets_bids_against_asks() {
    let bids = vec![level("99", "2"), level("96", "1"), level("90", "50")];
    let asks = vec![level("101", "1.5"), level("104.5", "1"), level("111", "70")];
    let narrow = measure_imbalance(&bids, &asks, "100", 500).unwrap();
    assert_eq!(narrow, Imbalance { bid_volume: 300_000_000, ask_volume: 250_000_000 });
    assert_eq!(narrow.net(), (false, 50_000_000));
    let wide = measure_imbalance(&bids, &asks, "100", 1000).unwrap();
    assert_eq!(wide, Imbalance { bid_volume: 5_300_000_000, ask_volume: 250_000_000 });
    let wider = measure_imbalance(&bids, &asks, "100", 1100).unwrap();
    assert_eq!(wider, Imbalance { bid_volume: 5_300_000_000, ask_volume: 7_250_000_000 });
    assert_eq!(wider.net(), (true, 1_950_000_000));
    let none = measure_imbalance(&bids, &asks, "100", 0).unwrap();
    assert_eq!(none, Imbalance { bid_volume: 0, ask_volume: 0 });
    assert_eq!(none.net(), (false, 0));
}

#[test]
fn imbalance_needs_a_reference_price_and_readable_levels() {
    let bids = vec![level("99", "2")];
    let asks = vec![level("101", "1")];
    assert_eq!(measure_imbalance(&bids, &asks, "", 500), None);
    assert_eq!(measure_imbalance(&bids, &asks, "abc", 500), None);
    assert!(measure_imbalance(&bids, &asks, "100", 10_000).is_some());
    assert_eq!(measure_imbalance(&vec![level("99", "?")], &asks, "100", 500), None);
    assert_eq!(measure_imbalance(&bids, &vec![level("?", "1")], "100", 500), None);
    assert_eq!(
        measure_imbalance(&vec![], &vec![], "0.0", 500),
        Some(Imbalance { bid_volume: 0, ask_volume: 0 })
    );
}

#[test]
fn a_window_may_reach_further_than_the_reference_price() {
    assert!(price_in_window(0, 100, 10_001));
    assert!(price_in_window(300, 100, 20_000));
    assert!(!price_in_window(301, 100, 20_000));
    assert!(!price_in_window(u64::MAX, 1, u64::MAX));
    assert!(price_in_window(u64::MAX, 10_000, u64::MAX));
    assert!(!price_in_window(u64::MAX, 9_999, u64::MAX));
    assert!(!price_in_window(u64::MAX, 1, 10_000));
    assert!(price_in_window(0, u64::MAX, u64::MAX));
    assert!(price_in_window(u64::MAX, u64::MAX, u64::MAX));
    assert!(!price_in_window(1, 0, u64::MAX));
    let bids = vec![level("99", "2"), level("1", "3")];
    let asks = vec![level("101", "1"), level("250", "4"), level("251", "8")];
    assert_eq!(
        measure_imbalance(&bids, &asks, "100", 15_000),
        Some(Imbalance { bid_volume: 500_000_000, ask_volume: 500_000_000 })
    );
    assert_eq!(
        measure_imbalance(&bids, &asks, "100", u64::MAX),
        Some(Imbalance { bid_volume: 500_000_000, ask_volume: 1_300_000_000 })
    );
}

#[test]
fn a_decimal_spells_zero_exactly_when_it_has_no_units() {
    for text in [
        "0", "0.0", "0.000", "0.00000000", "00", "0.", "1", "0.1", "0.00000001", "10", "100.0",
        "000.010", "184467440737.09551615",
    ] {
        let units = parse_decimal(text).expect(text);
        assert_eq!(market_feed::decimal::spells_zero(text), units == 0, "{}", text);
    }
    assert!(market_feed::decimal::spells_zero("0.000000000"));
    assert_eq!(parse_decimal("0.000000000"), None);
}
