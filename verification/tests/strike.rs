use poly_strategy::decimal::Decimal;
use poly_strategy::strike::{build_event_url, parse_prices_from_html};
use poly_strategy::types::CryptoAsset;


#[test]
fn test_parse_prices_open_only() {
    let html = r#"<script id="__NEXT_DATA__" type="application/json">{"props":{"pageProps":{"dehydratedState":{"queries":[{"queryKey":["crypto-prices","price","BTC","2026-02-10T17:00:00Z","fifteen","2026-02-10T17:15:00Z"],"state":{"data":{"openPrice":69483.31803071646,"closePrice":null}}}]}}}}</script>"#;
    let result = parse_prices_from_html(html, CryptoAsset::Btc).unwrap();
    let open = result.open_price.unwrap();
    assert!(open > Decimal::from_i64(69483));
    assert!(open < Decimal::from_i64(69484));
    assert!(result.close_price.is_none());
}

#[test]
fn test_parse_prices_both() {
    let html = r#"<script id="__NEXT_DATA__" type="application/json">{"props":{"pageProps":{"dehydratedState":{"queries":[{"queryKey":["crypto-prices","price","BTC","2026-02-10T17:00:00Z","fifteen","2026-02-10T17:15:00Z"],"state":{"data":{"openPrice":69483.31803071646,"closePrice":69512.45}}}]}}}}</script>"#;
    let result = parse_prices_from_html(html, CryptoAsset::Btc).unwrap();
    assert!(result.open_price.is_some());
    let close = result.close_price.unwrap();
    assert!(close > Decimal::from_i64(69512));
    assert!(close < Decimal::from_i64(69513));
}

#[test]
fn test_parse_prices_no_data() {
    let html = r#"<script id="__NEXT_DATA__" type="application/json">{"props":{"pageProps":{"dehydratedState":{"queries":[]}}}}</script>"#;
    let result = parse_prices_from_html(html, CryptoAsset::Btc);
    assert!(result.is_none());
}

#[test]
fn test_parse_prices_crossorigin_attr() {
    // Real Polymarket pages include crossorigin="anonymous" in the script tag
    let html = r#"<script id="__NEXT_DATA__" type="application/json" crossorigin="anonymous">{"props":{"pageProps":{"dehydratedState":{"queries":[{"queryKey":["crypto-prices","price","BTC"],"state":{"data":{"openPrice":69882.28,"closePrice":null}}}]}}}}</script>"#;
    let result = parse_prices_from_html(html, CryptoAsset::Btc).unwrap();
    let open = result.open_price.unwrap();
    assert!(open > Decimal::from_i64(69882));
    assert!(open < Decimal::from_i64(69883));
}

#[test]
fn test_build_event_url() {
    let ts = chrono::DateTime::parse_from_rfc3339("2026-02-10T17:00:00Z").unwrap().timestamp();
    let url = build_event_url(CryptoAsset::Btc, ts, "15m");
    assert!(url.contains("btc-updown-15m-"));
    assert!(url.contains("polymarket.com/event/"));
}
