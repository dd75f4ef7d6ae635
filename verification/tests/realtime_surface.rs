use twstock::cell::Price;
use twstock::date::Date;
use twstock::realtime::{parse_realtime_batch, parse_realtime_single, realtime_query_value};
use twstock::{Error, Stock, StockKind};

const OPEN_FRAME: &str = "{\"z\":\"596.00\",\"tv\":\"1000\",\"v\":\"25,000\",\"tlong\":\"1609723199000\",\"d\":\"20210104\",\"n\":\"台積電\",\"o\":\"590.00\",\"h\":\"598.00\",\"l\":\"589.50\",\"y\":\"593.00\",\"u\":\"652.00\",\"w\":\"534.00\"}";

const CLOSED_FRAME: &str = "{\"z\":\"-\",\"tv\":\"-\",\"v\":\"0\",\"tlong\":\"1609723199000\",\"d\":\"20210104\",\"n\":\"華航\",\"o\":\"-\",\"h\":\"-\",\"l\":\"-\",\"y\":\"10.00\",\"u\":\"11.00\",\"w\":\"9.00\"}";

#[test]
fn realtime_fetch() {
    // One open frame decodes to a full quote.
    let body = format!("{{\"msgArray\":[{}]}}", OPEN_FRAME);
    let quote = parse_realtime_single(body.as_bytes()).unwrap();
    assert_eq!(quote.name, "台積電");
    assert_eq!(quote.price, Price { scaled: 5_960_000 });
    assert_eq!(quote.volume, 1000);
    assert_eq!(quote.history_volume, 25_000);
    assert_eq!(quote.update_at, 1_609_723_199_000);
    assert_eq!(quote.recent_trading_date, Date { year: 2021, month: 1, day: 4 });
    assert_eq!(quote.limit_up_price, Price { scaled: 6_520_000 });
}

#[test]
fn batch_flags_only_the_closed_instrument() {
    // Two instruments, one closed: the batch answers for both, with exactly
    // one closed-market outcome.
    let body = format!("{{\"msgArray\":[{},{}]}}", OPEN_FRAME, CLOSED_FRAME);
    let outcomes = parse_realtime_batch(body.as_bytes()).unwrap();
    assert_eq!(outcomes.len(), 2);
    let closed: Vec<bool> = outcomes
        .iter()
        .map(|o| matches!(o, Err(Error::MarketClosed)))
        .collect();
    assert_eq!(closed, vec![false, true]);
    assert_eq!(outcomes[0].as_ref().unwrap().name, "台積電");
}

#[test]
fn single_fetch_surfaces_the_closed_market() {
    // The same closed instrument requested alone yields only the error.
    let body = format!("{{\"msgArray\":[{}]}}", CLOSED_FRAME);
    assert!(matches!(
        parse_realtime_single(body.as_bytes()),
        Err(Error::MarketClosed)
    ));
}

#[test]
fn missing_cumulative_volume_defaults_to_one() {
    let frame = "{\"z\":\"10.00\",\"tv\":\"5\",\"tlong\":\"1609723199000\",\"d\":\"20210104\",\"n\":\"華航\",\"o\":\"10.00\",\"h\":\"10.00\",\"l\":\"10.00\",\"y\":\"10.00\",\"u\":\"11.00\",\"w\":\"9.00\"}";
    let body = format!("{{\"msgArray\":[{}]}}", frame);
    let quote = parse_realtime_single(body.as_bytes()).unwrap();
    assert_eq!(quote.history_volume, 1);
}

#[test]
fn empty_batch_is_schema_drift_for_a_single_fetch() {
    assert!(matches!(
        parse_realtime_single(b"{\"msgArray\":[]}"),
        Err(Error::IncompatibleApi)
    ));
    let outcomes = parse_realtime_batch(b"{\"msgArray\":[]}").unwrap();
    assert_eq!(outcomes.len(), 0);
}

#[test]
fn error_payloads_and_garbage_classify() {
    match parse_realtime_batch(b"{\"stat\":\"rate limited\"}") {
        Err(Error::StatMessage(msg)) => assert_eq!(msg, "rate limited"),
        other => panic!("unexpected outcome: {:?}", other),
    }
    assert!(matches!(
        parse_realtime_batch(b"garbage"),
        Err(Error::IncompatibleApi)
    ));
}

#[test]
fn query_value_joins_instruments() {
    let stocks = vec![
        Stock { kind: StockKind::Live, code: 2330 },
        Stock { kind: StockKind::OverTheCounter, code: 6446 },
    ];
    assert_eq!(realtime_query_value(&stocks), "tse_2330.tw|otc_6446.tw");
    let one = vec![Stock { kind: StockKind::Live, code: 2330 }];
    assert_eq!(realtime_query_value(&one), "tse_2330.tw");
    assert_eq!(realtime_query_value(&Vec::new()), "");
}
