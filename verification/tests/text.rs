use poly_strategy::decimal::Decimal;
use poly_strategy::decision_log::{DecisionInputs, DecisionLogConfig, DecisionRecord};
use poly_strategy::position::SkipReason;
use poly_strategy::signal::Signal;
use poly_strategy::text::{
    chars_of, concat_all, join_all, number_text, parse_decimal, signed_text, split_text,
};
use poly_strategy::trades_log::{
    FillEntry, RiskTexts, SessionInfo, SessionStats, SettlementEntry, TradeRecordType, csv_header,
    format_duration,
};
use poly_strategy::types::CryptoAsset;

/// A decimal from its text.
fn dec(text: &str) -> Decimal {
    let d: rust_decimal::Decimal = text.parse().unwrap();
    Decimal::from_parts(d.mantissa(), d.scale()).unwrap()
}

const NOW: i64 = 1_770_742_800_123; // 2026-02-10T17:00:00.123Z

#[test]
fn whole_numbers_as_text() {
    assert_eq!(number_text(0), "0");
    assert_eq!(number_text(1234567890), "1234567890");
    assert_eq!(number_text(u64::MAX), u64::MAX.to_string());
    assert_eq!(signed_text(-42), "-42");
    assert_eq!(signed_text(i64::MIN), i64::MIN.to_string());
    assert_eq!(signed_text(7), "7");
}

#[test]
fn decimals_from_text() {
    assert_eq!(parse_decimal("12.50").unwrap(), dec("12.5"));
    assert_eq!(parse_decimal("12.50").unwrap().scale(), 2);
    assert_eq!(parse_decimal("-0.001").unwrap(), dec("-0.001"));
    assert!(parse_decimal("").is_none());
    assert!(parse_decimal("abc").is_none());
    assert!(parse_decimal("1,5").is_none());
}

#[test]
fn texts_are_joined_and_split() {
    let parts: Vec<String> = vec!["a".to_string(), "".to_string(), "b c".to_string()];
    let line = join_all(&parts, ",");
    assert_eq!(line, "a,,b c");
    // Splitting undoes joining
    assert_eq!(split_text(&line, ','), parts);
    assert_eq!(split_text("", ','), vec!["".to_string()]);
    assert_eq!(concat_all(&parts), "ab c");
    assert_eq!(chars_of("aé"), vec!['a', 'é']);
}

fn inputs() -> DecisionInputs {
    DecisionInputs {
        timestamp_ms: NOW,
        mode: "live".to_string(),
        event_id: "event1".to_string(),
        asset: CryptoAsset::Btc,
        spot_price: dec("100050.5"),
        strike_price: dec("100000"),
        distance: dec("-0.0005"),
        atr: dec("25"),
        seconds_remaining: 240,
        phase: "core".to_string(),
        signal: Signal::StrongUp,
        yes_price: dec("0.55"),
        no_price: dec("0.46"),
        base_confidence: dec("0.70"),
        pivot_multiplier: dec("1.1"),
        confidence: dec("0.77"),
        ev: dec("0.22"),
        min_edge: dec("0.05"),
        favorable_price: dec("0.55"),
    }
}

#[test]
fn decisions_as_rows() {
    let skipped = inputs().skip(SkipReason::LowConfidence);
    // 0.0005 of 100000 is 50 dollars, two ranges of 25
    assert_eq!(skipped.distance_dollars, dec("-50"));
    assert_eq!(skipped.atr_multiple, dec("2"));
    assert_eq!(skipped.action, "SKIP");
    let row = skipped.to_csv_row();
    assert!(row.starts_with("2026-02-10T17:00:00.123Z,live,event1,BTC,100050.5,100000,"));
    assert!(row.contains("LowConfidence"));
    // Amounts keep the digits of what they were computed from
    assert!(row.contains(",-0.0005,-50.0000,25,2.0000,"));
    let columns = split_text(DecisionRecord::csv_header(), ',').len();
    assert_eq!(split_text(&row, ',').len(), columns);

    let executed = inputs().execute(dec("12.5"), dec("1"));
    assert_eq!(executed.action, "EXECUTE");
    assert_eq!(executed.trade_size, Some(dec("12.5")));
    assert!(executed.skip_reason.is_none());
    let row = executed.to_csv_row();
    assert!(row.contains(",EXECUTE,,12.5,1"));
    assert_eq!(split_text(&row, ',').len(), columns);
}

#[test]
fn distance_without_a_range() {
    let record = DecisionInputs { atr: dec("0"), ..inputs() }.skip(SkipReason::BelowMinimumSize);
    assert_eq!(record.atr_multiple, dec("0"));
}

#[test]
fn settings_head_the_decision_log() {
    let config = DecisionLogConfig {
        base_order_size: dec("50"),
        min_order_size: dec("1"),
        max_market_exposure: dec("1000"),
        max_total_exposure: dec("5000"),
        available_balance: dec("2500.75"),
        max_edge_factor: dec("0.20"),
        window_duration_secs: 900,
        strong_up_ratio: dec("0.82"),
        lean_up_ratio: dec("0.65"),
    };
    let text = config.header_text("backtest", NOW);
    assert!(text.contains("backtest"));
    assert!(text.contains("2500.75"));
    assert!(text.contains("900"));
    assert!(text.contains("2026-02-10T17:00:00Z"));
}

fn fill() -> FillEntry {
    FillEntry {
        timestamp_ms: NOW,
        mode: "paper".to_string(),
        event_id: "event1".to_string(),
        asset: CryptoAsset::Eth,
        outcome: "YES".to_string(),
        shares: dec("10"),
        price: dec("0.48"),
        fee: dec("0.001"),
        cost: dec("4.801"),
        strike_price: dec("3000"),
        spot_price: dec("3010"),
        signal: "LeanUp".to_string(),
        confidence: dec("1.5"),
        balance: dec("995.199"),
        yes_shares_after: dec("10"),
        no_shares_after: dec("0"),
        cost_basis_after: dec("4.801"),
    }
}

fn settlement(pnl: &str) -> SettlementEntry {
    SettlementEntry {
        timestamp_ms: NOW,
        mode: "paper".to_string(),
        event_id: "event1".to_string(),
        asset: CryptoAsset::Eth,
        yes_wins: true,
        strike_price: dec("3000"),
        final_spot: dec("3010"),
        yes_shares: dec("10"),
        no_shares: dec("0"),
        cost_basis: dec("4.801"),
        payout: dec("10"),
        realized_pnl: dec(pnl),
        balance: dec("1005.199"),
    }
}

#[test]
fn trades_as_rows() {
    let row = fill().row();
    assert_eq!(row.record_type, TradeRecordType::Fill);
    let line = row.csv_row();
    assert!(line.starts_with("2026-02-10T17:00:00.123Z,paper,FILL,event1,ETH,YES,10,0.48,0.001,4.801,"));
    let columns = split_text(csv_header(), ',').len();
    assert_eq!(split_text(&line, ',').len(), columns);

    let line = settlement("5.199").row().csv_row();
    assert!(line.contains(",SETTLE,event1,ETH,"));
    assert_eq!(split_text(&line, ',').len(), columns);
}

/// The lines of a log with these rows.
fn lines_of(rows: &[String]) -> Vec<String> {
    let content = format!("{}{}", csv_header(), rows.concat());
    content.lines().map(|line| line.to_string()).collect()
}

#[test]
fn session_figures_follow_the_rows() {
    let stats = SessionStats::from_lines(&lines_of(&[
        fill().row().csv_row(),
        fill().row().csv_row(),
        settlement("5.199").row().csv_row(),
        settlement("-2").row().csv_row(),
    ]));
    assert_eq!(stats.total_fills, 2);
    assert_eq!(stats.total_settlements, 2);
    assert_eq!(stats.total_cost, dec("9.602"));
    assert_eq!(stats.total_pnl, dec("3.199"));
    assert_eq!(stats.wins, 1);
    assert_eq!(stats.losses, 1);
    assert_eq!(stats.gross_profit, dec("5.199"));
    assert_eq!(stats.gross_loss, dec("2"));
    assert_eq!(stats.assets, vec!["ETH".to_string()]);
    assert_eq!(stats.events, vec!["event1".to_string()]);
    assert_eq!(stats.pnl_series, vec![dec("5.199"), dec("-2")]);
    assert_eq!(stats.win_rate(), "50.0%");
    // 5.199 / 2 = 2.5995, cut to two digits
    assert_eq!(stats.profit_factor(), "2.59");
}

#[test]
fn logs_that_cannot_be_summed_up() {
    let good = lines_of(&[fill().row().csv_row(), settlement("5.199").row().csv_row()]);
    assert_eq!(SessionStats::of_summable(&good).unwrap().total_pnl, dec("5.199"));
    let huge = settlement("-1000000000000000000.1").row().csv_row();
    assert!(SessionStats::of_summable(&lines_of(&[huge])).is_none());
    let limit = settlement("1000000000000000000").row().csv_row();
    assert_eq!(SessionStats::of_summable(&lines_of(&[limit])).unwrap().wins, 1);
}

#[test]
fn empty_session() {
    let stats = SessionStats::from_lines(&lines_of(&["not a row\n".to_string()]));
    assert_eq!(stats.total_fills, 0);
    assert_eq!(stats.total_settlements, 0);
    assert_eq!(stats.total_pnl, dec("0"));
    assert!(stats.assets.is_empty());
}

#[test]
fn durations_as_text() {
    assert_eq!(format_duration(0), "0s");
    assert_eq!(format_duration(59), "59s");
    assert_eq!(format_duration(60), "1m 0s");
    assert_eq!(format_duration(3661), "1h 1m 1s");
}

#[test]
fn session_summary() {
    let info = SessionInfo {
        mode: "paper".to_string(),
        start_ms: NOW,
        end_ms: NOW + 3_600_000,
        initial_balance: dec("1000"),
        path: "/tmp/trades.csv".to_string(),
    };
    let risk = RiskTexts {
        final_balance: "1005.20".to_string(),
        return_pct: "0.52".to_string(),
        sharpe: "1.10".to_string(),
        sortino: "2.20".to_string(),
        max_drawdown: "3.30%".to_string(),
        calmar: "4.40".to_string(),
    };
    let stats = SessionStats::from_lines(&lines_of(&[settlement("5.199").row().csv_row()]));
    let text = info.summary_text(&stats, &risk);
    for part in ["paper", "1000", "1005.20", "0.52%", "1.10", "2.20", "3.30%", "4.40", "5.19"] {
        assert!(text.contains(part), "{} in {}", part, text);
    }
    assert!(text.contains("2026-02-10 17:00:00 UTC"));
}
