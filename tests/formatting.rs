use coinfmt::change::format_change;
use coinfmt::name::{format_name, format_rank};
use coinfmt::table::{
    conversion_decimals, format_conversion, format_quote, format_row, format_table, TokenRecord,
};
use coinfmt::value::{format_value, UNIT};

const U: i128 = UNIT as i128;

#[test]
fn value_below_one_has_five_decimals() {
    assert_eq!(format_value(5_000_000), "0.00500");
}

#[test]
fn value_thousands_padded() {
    assert_eq!(format_value(1500 * UNIT), "1.50K  ");
}

#[test]
fn value_overflow_sentinel() {
    assert_eq!(format_value(10_000_000_000_000_000 * UNIT), "PUMPED!");
    assert_eq!(format_value(1_000_000_000_000_000 * UNIT), "PUMPED!");
}

#[test]
fn value_just_below_sentinel() {
    assert_eq!(format_value(999_000_000_000_000 * UNIT), "999.00T");
}

#[test]
fn value_sub_unit_rounds_half_up() {
    assert_eq!(format_value(0), "0.00000");
    assert_eq!(format_value(5_000), "0.00001");
    assert_eq!(format_value(4_999), "0.00000");
    assert_eq!(format_value(999_996_000), "1.00000");
}

#[test]
fn value_units_and_suffixes() {
    assert_eq!(format_value(UNIT), "1.00   ");
    assert_eq!(format_value(123_456_000_000), "123.46 ");
    assert_eq!(format_value(1_234_567 * UNIT), "1.23M  ");
    assert_eq!(format_value(45_600_000_000 * UNIT), "45.60B ");
    assert_eq!(format_value(7_000_000_000_000 * UNIT), "7.00T  ");
}

#[test]
fn value_fraction_carries_to_hundred() {
    assert_eq!(format_value(1_999 * UNIT), "1.100K ");
    assert_eq!(format_value(999_999 * UNIT), "999.100K");
}

#[test]
fn value_cells_have_width_seven() {
    let prices: [u128; 8] = [
        UNIT,
        9_990_000_000,
        12_345_000_000,
        999_000_000_000,
        1_000 * UNIT,
        87_654_321 * UNIT,
        123_456_789_012 * UNIT,
        999_990_000_000_000 * UNIT,
    ];
    for p in prices {
        assert_eq!(format_value(p).chars().count(), 7, "price {}", p);
    }
}

#[test]
fn value_reformatting_shown_number_is_stable() {
    // 1.23K shown for 1234.5; read back as 1230 it shows 1.23K again.
    assert_eq!(format_value(1_234_500_000_000), "1.23K  ");
    assert_eq!(format_value(1_230 * UNIT), "1.23K  ");
    // 0.12346 shown for 0.123456; read back it shows the same.
    assert_eq!(format_value(123_456_000), "0.12346");
    assert_eq!(format_value(123_460_000), "0.12346");
}

#[test]
fn change_near_zero() {
    assert_eq!(format_change(0), " 0.000%");
    assert_eq!(format_change(999_999), " 0.000%");
    assert_eq!(format_change(-999_999), " 0.000%");
}

#[test]
fn change_whole_number_keeps_decimals() {
    assert_eq!(format_change(U), "+1.000%");
    assert_eq!(format_change(-U), "-1.000%");
    assert_eq!(format_change(10 * U), "+10.00%");
}

#[test]
fn change_sentinels() {
    assert_eq!(format_change(-1500 * U), "DUMPED!");
    assert_eq!(format_change(1500 * U), "PUMPED!");
    assert_eq!(format_change(1000 * U), "PUMPED!");
    assert_eq!(format_change(-1000 * U), "DUMPED!");
}

#[test]
fn change_precision_shrinks_with_magnitude() {
    assert_eq!(format_change(1_500_000), "+0.001%");
    assert_eq!(format_change(-500_000_000), "-0.500%");
    assert_eq!(format_change(2_675_000_000), "+2.675%");
    assert_eq!(format_change(-12_345_000_000), "-12.34%");
    assert_eq!(format_change(123_456_000_000), "+123.4%");
    assert_eq!(format_change(-999_999_999_999), "-999.9%");
}

#[test]
fn change_cells_have_width_seven() {
    let changes: [i128; 7] = [0, 1_000_000, -7_000_000_000, 55_550_000_000, -100 * U, 999 * U, -123_456_789];
    for c in changes {
        assert_eq!(format_change(c).chars().count(), 7, "change {}", c);
    }
}

#[test]
fn rank_padding() {
    assert_eq!(format_rank(1), "1  ");
    assert_eq!(format_rank(42), "42 ");
    assert_eq!(format_rank(100), "100");
    assert_eq!(format_rank(250), "250");
}

#[test]
fn name_title_cased_and_padded() {
    assert_eq!(format_name("bitcoin", Some(8)), "Bitcoin ");
}

#[test]
fn name_truncated_with_marker() {
    let r = format_name("BTCabcdef", Some(4));
    assert_eq!(r, "BTC-");
    assert_eq!(r.chars().count(), 4);
}

#[test]
fn name_with_capitals_kept() {
    assert_eq!(format_name("USD Coin", None), "USD Coin");
    assert_eq!(format_name("eTH", Some(5)), "eTH  ");
}

#[test]
fn name_without_width() {
    assert_eq!(format_name("ethereum", None), "Ethereum");
    assert_eq!(format_name("", None), "");
    assert_eq!(format_name("WETH", None), "WETH");
}

#[test]
fn name_lowercases_rest() {
    assert_eq!(format_name("shiba-inu", Some(8)), "Shiba-i-");
    assert_eq!(format_name("uSDC", None), "uSDC");
    // A title-case letter has no upper-case property, and lower-cases.
    assert_eq!(format_name("a\u{1C5}", None), "A\u{1C6}");
}

#[test]
fn name_counts_characters() {
    assert_eq!(format_name("ÉTÉ", Some(5)), "ÉTÉ  ");
    assert_eq!(format_name("éte", Some(3)), "Éte");
}

#[test]
fn row_with_rank() {
    let r = TokenRecord { name: "Bitcoin".to_string(), price: 65_432_100_000_000, change: 1_234_000_000, rank: Some(1) };
    assert_eq!(format_row(&r), "   1   Bitcoin  65.43K  +1.234%");
}

#[test]
fn row_without_rank() {
    let r = TokenRecord { name: "dogecoin".to_string(), price: 123_456_000, change: -5 * U, rank: None };
    assert_eq!(format_row(&r), "     Dogecoin 0.12346 -5.000%");
}

#[test]
fn table_block_framing() {
    let rs = vec![
        TokenRecord { name: "bitcoin".to_string(), price: 1500 * UNIT, change: 0, rank: None },
        TokenRecord { name: "ethereum".to_string(), price: 2 * UNIT, change: 2 * U, rank: None },
    ];
    assert_eq!(
        format_table(&rs, true),
        "\n     Bitcoin  1.50K    0.000%\n     Ethereum 2.00    +2.000%\n\n"
    );
    assert_eq!(
        format_table(&rs, false),
        "\n     Bitcoin  1.50K    0.000%\n     Ethereum 2.00    +2.000%\n"
    );
    assert_eq!(format_table(&Vec::new(), true), "\n\n");
}

#[test]
fn quote_block() {
    assert_eq!(format_quote(1500 * UNIT, U), "\n     1.50K   +1.000%\n\n");
}

#[test]
fn conversion_lines() {
    assert_eq!(
        format_conversion("100", "bitcoin", "usd", "0.0015385", true),
        "   100 USD -> 0.0015385 Bitcoin"
    );
    assert_eq!(
        format_conversion("2", "ethereum", "eur", "6000.0", false),
        "   2 Ethereum -> 6000.0 EUR"
    );
}

#[test]
fn conversion_decimal_places() {
    assert_eq!(conversion_decimals(1), 4);
    assert_eq!(conversion_decimals(5), 0);
    assert_eq!(conversion_decimals(9), 0);
    assert_eq!(conversion_decimals(-2), 7);
}
