use twstock::cell::Price;
use twstock::history::{history_date_param, parse_history_body, FieldMapper};
use twstock::json::Json;
use twstock::Error;

fn text(s: &str) -> Json {
    Json::Text(String::from(s))
}

fn headers(names: &[&str]) -> Vec<String> {
    names.iter().map(|s| String::from(*s)).collect()
}

const CANONICAL: [&str; 9] = [
    "日期",
    "成交股數",
    "成交金額",
    "開盤價",
    "最高價",
    "最低價",
    "收盤價",
    "漲跌價差",
    "成交筆數",
];

fn row(values: &[&str]) -> Vec<Json> {
    values.iter().map(|s| text(s)).collect()
}

#[test]
fn history_fetch() {
    // A month with two trading days decodes to exactly two records, each
    // dated within the requested month and year.
    let body = String::from(
        "{\"stat\":\"OK\",\"fields\":[\"日期\",\"成交股數\",\"成交金額\",\"開盤價\",\"最高價\",\"最低價\",\"收盤價\",\"漲跌價差\",\"成交筆數\"],\"data\":[[\"110/01/05\",\"50,682,188\",\"29,114,183,596\",\"570.00\",\"580.00\",\"567.00\",\"580.00\",\"+14.00\",\"38,403\"],[\"110/01/06\",\"61,445,194\",\"35,219,372,961\",\"582.00\",\"583.00\",\"565.00\",\"565.00\",\"-15.00\",\"51,679\"]]}",
    );
    let data = parse_history_body(body.as_bytes()).unwrap();
    assert_eq!(data.len(), 2);
    for item in &data {
        assert_eq!(item.date.year, 2021);
        assert_eq!(item.date.month, 1);
    }
    assert_eq!(data[0].date.day, 5);
    assert_eq!(data[0].volume, 50_682_188);
    assert_eq!(data[0].open_price, Price { scaled: 5_700_000 });
    assert_eq!(data[0].diff, Price { scaled: 140_000 });
    assert_eq!(data[1].diff, Price { scaled: -150_000 });
    assert_eq!(data[1].transaction, 51_679);
}

#[test]
fn permuted_headers_decode_identically() {
    let base = headers(&CANONICAL);
    let base_row = row(&[
        "110/01/05",
        "50,682,188",
        "29,114,183,596",
        "570.00",
        "580.00",
        "567.00",
        "580.00",
        "+14.00",
        "38,403",
    ]);
    // The same cells under a rotated header order.
    let rotated = headers(&[
        "成交筆數",
        "日期",
        "成交股數",
        "成交金額",
        "開盤價",
        "最高價",
        "最低價",
        "收盤價",
        "漲跌價差",
    ]);
    let rotated_row = row(&[
        "38,403",
        "110/01/05",
        "50,682,188",
        "29,114,183,596",
        "570.00",
        "580.00",
        "567.00",
        "580.00",
        "+14.00",
    ]);
    let m1 = FieldMapper::new(&base).unwrap();
    let m2 = FieldMapper::new(&rotated).unwrap();
    let r1 = m1.map(&base_row).unwrap();
    let r2 = m2.map(&rotated_row).unwrap();
    assert_eq!(r1, r2);
}

#[test]
fn incomplete_headers_are_schema_drift() {
    // Nine headers, but one of them unrecognized: the date field is missing.
    let bad = headers(&[
        "時間",
        "成交股數",
        "成交金額",
        "開盤價",
        "最高價",
        "最低價",
        "收盤價",
        "漲跌價差",
        "成交筆數",
    ]);
    assert!(matches!(FieldMapper::new(&bad), Err(Error::IncompatibleApi)));
    // A duplicated header cannot cover the nine fields.
    let duplicated = headers(&[
        "日期",
        "日期",
        "成交金額",
        "開盤價",
        "最高價",
        "最低價",
        "收盤價",
        "漲跌價差",
        "成交筆數",
    ]);
    assert!(matches!(FieldMapper::new(&duplicated), Err(Error::IncompatibleApi)));
}

#[test]
fn upstream_error_message_is_surfaced() {
    let body = String::from("{\"stat\":\"很抱歉，沒有符合條件的資料!\"}");
    match parse_history_body(body.as_bytes()) {
        Err(Error::StatMessage(msg)) => assert_eq!(msg, "很抱歉，沒有符合條件的資料!"),
        other => panic!("unexpected outcome: {:?}", other),
    }
}

#[test]
fn unrecognizable_bodies_are_schema_drift() {
    assert!(matches!(
        parse_history_body(b"not json at all"),
        Err(Error::IncompatibleApi)
    ));
    assert!(matches!(
        parse_history_body(b"{\"unexpected\":[1,2,3]}"),
        Err(Error::IncompatibleApi)
    ));
}

#[test]
fn bad_row_rejects_the_whole_response() {
    let body = String::from(
        "{\"fields\":[\"日期\",\"成交股數\",\"成交金額\",\"開盤價\",\"最高價\",\"最低價\",\"收盤價\",\"漲跌價差\",\"成交筆數\"],\"data\":[[\"110/01/05\",\"oops\",\"29\",\"570.00\",\"580.00\",\"567.00\",\"580.00\",\"+14.00\",\"38\"]]}",
    );
    assert!(matches!(
        parse_history_body(body.as_bytes()),
        Err(Error::IncompatibleApi)
    ));
}

#[test]
fn date_parameter_is_the_first_of_the_month() {
    assert_eq!(history_date_param(2021, 1).unwrap(), "20210101");
    assert_eq!(history_date_param(987, 12).unwrap(), "09871201");
    assert!(matches!(
        history_date_param(2021, 13),
        Err(Error::DateDoesNotExist)
    ));
    assert!(matches!(
        history_date_param(2021, 0),
        Err(Error::DateDoesNotExist)
    ));
}
