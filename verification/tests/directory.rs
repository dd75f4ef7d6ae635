use twstock::list::parser::{big5_to_utf8, RawContent};
use twstock::list::Industry;
use twstock::date::Date;
use twstock::StockKind;

fn fixture_html() -> String {
    let mut page = String::new();
    page.push_str("<html><body><table>\n");
    page.push_str("<tr><td>有價證券代號及名稱</td><td>國際證券辨識號碼(ISIN Code)</td><td>上市日</td><td>市場別</td><td>產業別</td><td>CFICode</td><td>備註</td></tr>\n");
    page.push_str("<tr><td>股票</td></tr>\n");
    page.push_str("<tr><td>2506　太設</td><td>TW0002506005</td><td>1962/02/09</td><td>上市</td><td>建材營造業</td><td>ESVUFR</td><td>－</td></tr>\n");
    page.push_str("<tr><td>2330　台積電</td><td>TW0002330008</td><td>1994/09/05</td><td>上市</td><td>半導體業</td><td>ESVUFR</td><td>－</td></tr>\n");
    page.push_str("<tr><td>6547　高端疫苗</td><td>TW0006547108</td><td>2020/01/02</td><td>上櫃</td><td>生技醫療</td><td>ESVUFR</td><td>－</td></tr>\n");
    page.push_str("<tr><td>　</td></tr>\n");
    page.push_str("</table></body></html>\n");
    page
}

fn to_big5(text: &str) -> Vec<u8> {
    let (bytes, _, had_errors) = encoding_rs::BIG5.encode(text);
    assert!(!had_errors);
    bytes.into_owned()
}

#[test]
fn parse() {
    // Three genuine data rows among header, section and blank rows parse to
    // exactly three issuers.
    let raw_bytes = to_big5(&fixture_html());
    let result = RawContent(&raw_bytes).parse().unwrap();
    assert_eq!(result.len(), 3);
    assert_eq!(result[0].abbr, "太設");
    assert_eq!(result[0].id.code, 2506);
    assert_eq!(result[0].id.kind, StockKind::Live);
    assert_eq!(result[0].release_date, Date { year: 1962, month: 2, day: 9 });
    assert_eq!(result[0].industry, Industry::Construction);
    assert_eq!(result[1].abbr, "台積電");
    assert_eq!(result[1].industry, Industry::Semiconductor);
    assert_eq!(result[2].id.kind, StockKind::OverTheCounter);
    assert_eq!(result[2].industry, Industry::Other(String::from("生技醫療")));
}

#[test]
fn parse_without_required_headers_is_schema_drift() {
    let mut page = String::new();
    page.push_str("<html><body><table>\n");
    page.push_str("<tr><td>a</td><td>b</td><td>c</td><td>d</td><td>e</td><td>f</td><td>g</td></tr>\n");
    page.push_str("</table></body></html>\n");
    let raw_bytes = to_big5(&page);
    assert!(RawContent(&raw_bytes).parse().is_err());
}

#[test]
fn test_big5_to_utf8() {
    let raw = to_big5("有價證券代號及名稱hello_world");
    let utf8 = big5_to_utf8(raw);
    assert_eq!(utf8, "有價證券代號及名稱hello_world".to_string());
}

#[test]
fn encoding_round_trip_is_exact() {
    // Encoding a known text into the legacy encoding and decoding it back
    // yields the original string.
    let original = "上市日 1994/09/05 半導體業 2330 台積電";
    let decoded = big5_to_utf8(to_big5(original));
    assert_eq!(decoded, original);
}

#[test]
fn industry_vocabulary_maps() {
    assert_eq!(Industry::from_name("水泥工業"), Industry::Cement);
    assert_eq!(Industry::from_name("電子通路"), Industry::Electronic);
    assert_eq!(Industry::from_name("電器電纜"), Industry::Electronic);
    assert_eq!(Industry::from_name("食品工業"), Industry::Food);
    assert_eq!(Industry::from_name("汽車工業"), Industry::Car);
    assert_eq!(Industry::from_name("電機機械"), Industry::Motor);
    assert_eq!(Industry::from_name("鋼鐵工業"), Industry::Steel);
    assert_eq!(
        Industry::from_name("航運業"),
        Industry::Other(String::from("航運業"))
    );
    assert_eq!(Industry::default(), Industry::Other(String::new()));
}
