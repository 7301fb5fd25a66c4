use rustlab::quant::{data_range, keep_latest, next_start_time, plan_kline_fetch, should_save_fetched, trading_only, ExchangeInfo, Interval, KlineFetch, QuantError};

fn info(symbol: &str, status: &str) -> ExchangeInfo {
    ExchangeInfo {
        symbol: symbol.to_string(),
        status: status.to_string(),
        base_asset_precision: 8,
        quote_asset_precision: 8,
    }
}

#[test]
fn interval_codes_and_lengths() {
    let all = [
        (Interval::M1, "1m", 60_000),
        (Interval::M5, "5m", 300_000),
        (Interval::M15, "15m", 900_000),
        (Interval::M30, "30m", 1_800_000),
        (Interval::H1, "1h", 3_600_000),
        (Interval::H4, "4h", 14_400_000),
        (Interval::D1, "1d", 86_400_000),
        (Interval::W1, "1w", 604_800_000),
    ];
    for (i, code, ms) in all {
        assert_eq!(i.as_str(), code);
        assert_eq!(i.as_millis(), ms);
    }
}

#[test]
fn only_trading_pairs_kept_in_order() {
    let pairs = vec![info("BTCUSDT", "TRADING"), info("OLD", "BREAK"), info("ETHUSDT", "TRADING")];
    let kept = trading_only(pairs);
    let names: Vec<&str> = kept.iter().map(|e| e.symbol.as_str()).collect();
    assert_eq!(names, vec!["BTCUSDT", "ETHUSDT"]);
    assert!(trading_only(vec![info("X", "trading")]).is_empty());
}

#[test]
fn cache_planning_helpers() {
    assert_eq!(next_start_time(1_000, Interval::M1), 61_000);
    assert_eq!(keep_latest(vec![1, 2, 3, 4, 5], 2), vec![4, 5]);
    assert_eq!(keep_latest(vec![1, 2], 5), vec![1, 2]);
    assert_eq!(data_range(&[]), None);
    assert_eq!(data_range(&[3, 7, 9]), Some((3, 9)));
}

#[test]
fn quant_error_messages() {
    assert_eq!(QuantError::Network("timeout".to_string()).message(), "网络错误: timeout");
    assert_eq!(QuantError::Api("429".to_string()).message(), "API 错误: 429");
    assert_eq!(QuantError::Parse("open".to_string()).message(), "解析错误: open");
    assert_eq!(QuantError::Io("disk".to_string()).message(), "IO 错误: disk");
    assert_eq!(QuantError::DataProcess("df".to_string()).message(), "数据处理错误: df");
}

#[test]
fn kline_fetch_plan_and_saving() {
    assert_eq!(plan_kline_fetch(None, Interval::H1), KlineFetch::Latest);
    assert_eq!(plan_kline_fetch(Some((0, 7_200_000)), Interval::H1), KlineFetch::Since(10_800_000));
    assert!(should_save_fetched(KlineFetch::Latest, 0));
    assert!(should_save_fetched(KlineFetch::Latest, 3));
    assert!(!should_save_fetched(KlineFetch::Since(5), 0));
    assert!(should_save_fetched(KlineFetch::Since(5), 1));
}
