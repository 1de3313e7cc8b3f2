use regtest_transfer::amount::{amounts_match, format_btc, format_btc_fixed};

#[test]
fn whole_amounts_keep_one_decimal() {
    assert_eq!(format_btc(2_000_000_000), "20.0");
    assert_eq!(format_btc(5_000_000_000), "50.0");
    assert_eq!(format_btc(0), "0.0");
}

#[test]
fn fractional_amounts_drop_trailing_zeros() {
    assert_eq!(format_btc(2_999_999_859), "29.99999859");
    assert_eq!(format_btc(150_000_000), "1.5");
    assert_eq!(format_btc(1), "0.00000001");
    assert_eq!(format_btc(u64::MAX), "184467440737.09551615");
}

#[test]
fn fixed_amounts_keep_eight_decimals() {
    assert_eq!(format_btc_fixed(141), "0.00000141");
    assert_eq!(format_btc_fixed(2_999_999_859), "29.99999859");
    assert_eq!(format_btc_fixed(3_000_000_000), "30.00000000");
    assert_eq!(format_btc_fixed(0), "0.00000000");
}

#[test]
fn tolerance_is_strict() {
    assert!(amounts_match(2_000_000_000, 2_000_000_000));
    assert!(amounts_match(2_000_009_999, 2_000_000_000));
    assert!(amounts_match(1_999_990_001, 2_000_000_000));
    assert!(!amounts_match(2_000_010_000, 2_000_000_000));
    assert!(!amounts_match(1_999_990_000, 2_000_000_000));
    assert!(amounts_match(0, 9_999));
}

#[test]
fn recipient_amount_text_reads_back_to_eight_places() {
    for sat in [2_000_000_000u64, 1, 123_456_789, 5_000_000_000, 0] {
        let text = format_btc(sat);
        let (whole, frac) = text.split_once('.').unwrap();
        assert!(frac.len() >= 1 && frac.len() <= 8);
        let padded = format!("{frac:0<8}");
        let back = whole.parse::<u64>().unwrap() * 100_000_000 + padded.parse::<u64>().unwrap();
        assert_eq!(back, sat);
    }
}
