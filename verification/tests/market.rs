//! The followed funds, prices, days and requests.

use chrono::Datelike;
use stocks::dates::{bars_window, Window, FIRST_DAY, LAST_DAY, WINDOW_DAYS};
use stocks::price::Price;
use stocks::requests::{auth_message, bars_url, snapshots_url, subscribe_message};
use stocks::requests::{PREV_CLOSE_REFRESH_SECS, RETURNS_REFRESH_SECS};
use stocks::text::{join, same_text};
use stocks::tickers::{is_listed, symbol_list, symbols, tickers, STREAM_SYMBOL_LIMIT};

const LIST: &str = "TQQQ,SQQQ,SOXL,SOXS,UPRO,SPXU,SPXL,SPXS,TNA,TZA,FAS,FAZ,TECL,TECS,LABU,LABD";

fn day(year: i32, month: u32, day: u32) -> i32 {
    chrono::NaiveDate::from_ymd_opt(year, month, day).unwrap().num_days_from_ce()
}

#[test]
fn signs_of_prices_are_those_of_doubles() {
    let doubles = [
        0.0,
        -0.0,
        1.0,
        -1.0,
        0.01,
        -0.01,
        5e-324,
        -5e-324,
        f64::MIN_POSITIVE,
        f64::MAX,
        f64::MIN,
        f64::INFINITY,
        f64::NEG_INFINITY,
        f64::NAN,
        -f64::NAN,
        57.25,
    ];
    for x in doubles {
        let p = Price { bits: x.to_bits() };
        assert_eq!(p.is_positive(), x > 0.0);
        assert_eq!(p.is_zero(), x == 0.0);
    }
}

#[test]
fn texts_are_compared_and_joined() {
    assert!(same_text("", ""));
    assert!(same_text("SOXL", "SOXL"));
    assert!(!same_text("SOXL", "SOXS"));
    assert!(!same_text("TNA", "TNAX"));
    assert!(same_text("é", "é"));
    assert!(!same_text("é", "e"));
    assert_eq!(join(&vec![], ","), "");
    assert_eq!(join(&vec!["a"], ","), "a");
    assert_eq!(join(&vec!["a", "", "b"], ", "), "a, , b");
}

#[test]
fn sixteen_funds_are_followed() {
    let table = tickers();
    assert_eq!(table.len(), 16);
    assert_eq!(table[0].symbol, "TQQQ");
    assert_eq!(table[0].name, "ProShares UltraPro QQQ (3x Nasdaq-100)");
    assert_eq!(table[15].symbol, "LABD");
    assert_eq!(table[15].name, "Direxion Daily S&P Biotech Bear 3x");
    let all = symbols();
    assert!(all.len() <= STREAM_SYMBOL_LIMIT);
    for i in 0..all.len() {
        assert_eq!(all[i], table[i].symbol);
        for j in 0..i {
            assert_ne!(all[i], all[j]);
        }
    }
    assert_eq!(symbol_list(), LIST);
}

#[test]
fn only_followed_symbols_are_listed() {
    assert!(is_listed("TQQQ"));
    assert!(is_listed("TNA"));
    assert!(is_listed("LABD"));
    assert!(!is_listed("tqqq"));
    assert!(!is_listed("TQQ"));
    assert!(!is_listed("AAPL"));
    assert!(!is_listed(""));
}

#[test]
fn a_window_reaches_back_two_hundred_days() {
    let w = bars_window(day(2024, 7, 19)).unwrap();
    assert_eq!(w.start, "2024-01-01");
    assert_eq!(w.end, "2024-07-19");
    let w = bars_window(day(2025, 3, 1)).unwrap();
    assert_eq!(w.start, "2024-08-13");
    assert_eq!(w.end, "2025-03-01");
}

#[test]
fn a_window_stays_in_the_calendar() {
    let w = bars_window(FIRST_DAY + WINDOW_DAYS).unwrap();
    assert_eq!(w.start, "-262143-01-01");
    assert!(bars_window(FIRST_DAY + WINDOW_DAYS - 1).is_none());
    let w = bars_window(LAST_DAY).unwrap();
    assert_eq!(w.end, "+262142-12-31");
    assert!(bars_window(LAST_DAY + 1).is_none());
    assert!(bars_window(i32::MIN).is_none());
    assert!(bars_window(i32::MAX).is_none());
    assert!(chrono::NaiveDate::from_num_days_from_ce_opt(FIRST_DAY - 1).is_none());
    assert!(chrono::NaiveDate::from_num_days_from_ce_opt(LAST_DAY + 1).is_none());
}

#[test]
fn addresses_name_symbols_and_days() {
    assert_eq!(
        snapshots_url(),
        format!("https://data.alpaca.markets/v2/stocks/snapshots?symbols={LIST}&feed=iex")
    );
    let window = Window { start: "2024-01-01".to_string(), end: "2024-07-19".to_string() };
    let first = format!(
        "https://data.alpaca.markets/v2/stocks/bars?symbols={LIST}&timeframe=1Day&start=2024-01-01&end=2024-07-19&feed=iex&limit=10000&adjustment=split"
    );
    assert_eq!(bars_url(&window, &None), first);
    assert_eq!(
        bars_url(&window, &Some("abc".to_string())),
        format!("{first}&page_token=abc")
    );
}

#[test]
fn messages_are_compact_documents() {
    assert_eq!(
        auth_message("id", "s\"x\\"),
        "{\"action\":\"auth\",\"key\":\"id\",\"secret\":\"s\\\"x\\\\\"}"
    );
    let quoted: Vec<String> = LIST.split(',').map(|s| format!("\"{s}\"")).collect();
    assert_eq!(
        subscribe_message(),
        format!("{{\"action\":\"subscribe\",\"trades\":[{}]}}", quoted.join(","))
    );
}

#[test]
fn refreshes_are_hours_apart() {
    assert_eq!(PREV_CLOSE_REFRESH_SECS, 21_600);
    assert_eq!(RETURNS_REFRESH_SECS, 86_400);
}
