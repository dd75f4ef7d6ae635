use twstock::cell::{decode_compact_date, decode_price, decode_roc_date, decode_unsigned, Price};
use twstock::date::Date;
use twstock::json::Json;
use twstock::Error;

fn text(s: &str) -> Json {
    Json::Text(String::from(s))
}

fn num(s: &str) -> Json {
    Json::Num(String::from(s))
}

#[test]
fn separators_and_native_numbers_agree() {
    let with_separators = decode_unsigned(&text("1,234,567")).unwrap();
    let native = decode_unsigned(&num("1234567")).unwrap();
    assert_eq!(with_separators, 1234567u64);
    assert_eq!(with_separators, native);
}

#[test]
fn price_decoding_is_fixed_point() {
    assert_eq!(decode_price(&text("596.00")).unwrap(), Price { scaled: 5_960_000 });
    assert_eq!(decode_price(&text("1,234.5")).unwrap(), Price { scaled: 12_345_000 });
    assert_eq!(decode_price(&text("-0.50")).unwrap(), Price { scaled: -5_000 });
    assert_eq!(decode_price(&text("+4.00")).unwrap(), Price { scaled: 40_000 });
    assert_eq!(decode_price(&num("596.5")).unwrap(), Price { scaled: 5_965_000 });
}

#[test]
fn sentinel_always_yields_market_closed() {
    assert!(matches!(decode_unsigned(&text("-")), Err(Error::MarketClosed)));
    assert!(matches!(decode_price(&text("-")), Err(Error::MarketClosed)));
    assert!(matches!(decode_roc_date(&text("-")), Err(Error::MarketClosed)));
    assert!(matches!(decode_compact_date(&text("-")), Err(Error::MarketClosed)));
}

#[test]
fn local_era_dates_convert() {
    let d = decode_roc_date(&text("110/01/05")).unwrap();
    assert_eq!(d, Date { year: 2021, month: 1, day: 5 });
}

#[test]
fn compact_dates_convert() {
    let d = decode_compact_date(&num("20210105")).unwrap();
    assert_eq!(d, Date { year: 2021, month: 1, day: 5 });
    let from_text = decode_compact_date(&text("20210105")).unwrap();
    assert_eq!(d, from_text);
}

#[test]
fn malformed_cells_are_schema_drift() {
    assert!(matches!(decode_unsigned(&text("abc")), Err(Error::IncompatibleApi)));
    assert!(matches!(decode_unsigned(&Json::Null), Err(Error::IncompatibleApi)));
    assert!(matches!(decode_roc_date(&num("1100105")), Err(Error::IncompatibleApi)));
    assert!(matches!(decode_compact_date(&text("2021/1/5")), Err(Error::IncompatibleApi)));
    assert!(matches!(decode_compact_date(&num("20211301")), Err(Error::IncompatibleApi)));
}
