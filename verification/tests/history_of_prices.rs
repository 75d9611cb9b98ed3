//! Bars, returns, quotes and recorded prices.

use stocks::bars::{read_bars, BarsTask, CloseTable, FetchTask};
use stocks::dates::Window;
use stocks::history::{history_reply, refuse_unlisted, HistoryPoint, HISTORY_LIMIT};
use stocks::performance::{pct_change, returns_rows, six_month_days, ReturnsCache};
use stocks::price::{Comparison, Price};
use stocks::quotes::{day_cutoff, quotes_pass, LatestRow, QuotesTask};
use stocks::store::LATEST_PRICES;
use stocks::tickers::tickers;

fn price(x: f64) -> Price {
    Price { bits: x.to_bits() }
}

fn over(current: f64, base: f64) -> Option<Comparison> {
    Some(Comparison { current: price(current), base: price(base) })
}

fn window() -> Window {
    Window { start: "2024-01-01".to_string(), end: "2024-07-19".to_string() }
}

#[test]
fn bars_give_closes_in_order() {
    let body = br#"{"bars": {
            "TQQQ": [{"c": 1.5}, {"o": 9}, {"c": "x"}, {"c": 2}],
            "SOXL": "none"
        }, "next_page_token": "abc"}"#;
    let page = read_bars(body).unwrap();
    assert_eq!(page.next_page_token, Some("abc".to_string()));
    let mut series = page.series;
    series.sort_by(|a, b| a.symbol.cmp(&b.symbol));
    assert_eq!(series.len(), 2);
    assert_eq!(series[0].symbol, "SOXL");
    assert_eq!(series[0].closes.len(), 0);
    assert_eq!(series[1].symbol, "TQQQ");
    assert_eq!(series[1].closes, vec![price(1.5), price(2.0)]);
}

#[test]
fn pages_without_bars_are_empty() {
    for body in [&b"{}"[..], b"[]", b"5", b"{\"bars\": [], \"next_page_token\": null}"] {
        let page = read_bars(body).unwrap();
        assert_eq!(page.series.len(), 0);
        assert_eq!(page.next_page_token, None);
    }
    assert!(read_bars(b"").is_err());
    assert!(read_bars(b"{} x").is_err());
}

#[test]
fn pages_add_up() {
    let task = FetchTask::new(window());
    assert!(task.url().ends_with("&feed=iex&limit=10000&adjustment=split"));
    let body = br#"{"bars": {"TQQQ": [{"c": 1}, {"c": 2}]}, "next_page_token": "p2"}"#;
    let task = match task.fetched(body).unwrap() {
        BarsTask::Fetch(t) => t,
        BarsTask::Done(_) => panic!("the second page was passed over"),
    };
    assert!(task.url().ends_with("&adjustment=split&page_token=p2"));
    let body = br#"{"bars": {"SOXL": [{"c": 7}], "TQQQ": [{"c": 3}]}, "next_page_token": null}"#;
    match task.fetched(body).unwrap() {
        BarsTask::Done(table) => {
            assert_eq!(table.closes("TQQQ"), vec![price(1.0), price(2.0), price(3.0)]);
            assert_eq!(table.closes("SOXL"), vec![price(7.0)]);
            assert_eq!(table.closes("FAS"), vec![]);
        }
        BarsTask::Fetch(_) => panic!("a third page was asked for"),
    }
}

#[test]
fn a_page_that_is_no_document_ends_the_reading() {
    assert!(FetchTask::new(window()).fetched(b"<html>").is_err());
}

#[test]
fn changes_need_enough_closes() {
    let closes: Vec<Price> = [10.0, 11.0, 0.0, 13.0].iter().map(|x| price(*x)).collect();
    assert_eq!(pct_change(&closes, 0), over(13.0, 13.0));
    assert_eq!(pct_change(&closes, 1), None);
    assert_eq!(pct_change(&closes, 2), over(13.0, 11.0));
    assert_eq!(pct_change(&closes, 3), over(13.0, 10.0));
    assert_eq!(pct_change(&closes, 4), None);
    assert_eq!(pct_change(&[], 0), None);
}

#[test]
fn half_a_year_is_cut_to_what_there_is() {
    assert_eq!(six_month_days(0), 0);
    assert_eq!(six_month_days(1), 0);
    assert_eq!(six_month_days(126), 125);
    assert_eq!(six_month_days(127), 126);
    assert_eq!(six_month_days(128), 126);
    assert_eq!(six_month_days(usize::MAX), 126);
}

fn table_of(n: usize) -> CloseTable {
    let bars: Vec<String> = (1..=n).map(|i| format!("{{\"c\":{i}}}")).collect();
    let body = format!("{{\"bars\":{{\"SQQQ\":[{}]}}}}", bars.join(","));
    match FetchTask::new(window()).fetched(body.as_bytes()).unwrap() {
        BarsTask::Done(table) => table,
        BarsTask::Fetch(_) => panic!("a second page was asked for"),
    }
}

#[test]
fn returns_reach_back_as_far_as_they_can() {
    let rows = returns_rows(&table_of(130));
    assert_eq!(rows.len(), tickers().len());
    assert_eq!(rows[1].symbol, "SQQQ");
    assert_eq!(rows[1].name, "ProShares UltraPro Short QQQ (3x inverse Nasdaq-100)");
    assert_eq!(rows[1].week_pct, over(130.0, 125.0));
    assert_eq!(rows[1].month_pct, over(130.0, 109.0));
    assert_eq!(rows[1].six_month_pct, over(130.0, 4.0));
    assert_eq!(rows[0].symbol, "TQQQ");
    assert_eq!(rows[0].week_pct, None);
    assert_eq!(rows[0].six_month_pct, None);
    let rows = returns_rows(&table_of(6));
    assert_eq!(rows[1].week_pct, over(6.0, 1.0));
    assert_eq!(rows[1].month_pct, None);
    assert_eq!(rows[1].six_month_pct, over(6.0, 1.0));
    let rows = returns_rows(&table_of(1));
    assert_eq!(rows[1].week_pct, None);
    assert_eq!(rows[1].six_month_pct, over(1.0, 1.0));
}

#[test]
fn the_cache_answers_with_the_latest_returns() {
    let mut cache = ReturnsCache::default();
    let empty = cache.response();
    assert_eq!(empty.as_of, 0);
    assert_eq!(empty.rows.len(), 0);
    cache.refresh(&table_of(6), 1_700_000_000);
    let answer = cache.response();
    assert_eq!(answer.as_of, 1_700_000_000);
    assert_eq!(answer.rows.len(), 16);
    assert_eq!(answer.rows[1].symbol, "SQQQ");
    assert_eq!(answer.rows[1].name, cache.rows[1].name);
    assert_eq!(answer.rows[1].week_pct, over(6.0, 1.0));
    cache.refresh(&CloseTable::new(), 1_700_000_001);
    assert_eq!(cache.response().as_of, 1_700_000_001);
    assert_eq!(cache.response().rows[1].week_pct, None);
}

#[test]
fn quotes_show_funds_with_rows() {
    let row = LatestRow {
        ts: 99,
        price: price(12.0),
        change: price(2.0),
        percent_change: price(20.0),
        volume: Some(7),
    };
    let mut asked = Vec::new();
    let mut task = quotes_pass();
    let out = loop {
        task = match task {
            QuotesTask::Latest(t) => {
                asked.push(t.symbol());
                let known = t.symbol() == "SQQQ" || t.symbol() == "LABD";
                t.found(if known { Some(row) } else { None })
            }
            QuotesTask::DayAgo(t) => {
                let symbol = t.symbol();
                t.found(if symbol == "SQQQ" { Some(price(8.0)) } else { None })
            }
            QuotesTask::First(t) => {
                assert_eq!(t.symbol(), *asked.last().unwrap());
                t.found(Some(price(6.0)))
            }
            QuotesTask::Done(out) => break out,
        }
    };
    assert_eq!(asked.len(), 16);
    assert_eq!(out.len(), 2);
    assert_eq!(out[0].symbol, "SQQQ");
    assert_eq!(out[0].name, "ProShares UltraPro Short QQQ (3x inverse Nasdaq-100)");
    assert_eq!(out[0].price, price(12.0));
    assert_eq!(out[0].change, price(2.0));
    assert_eq!(out[0].percent_change, price(20.0));
    assert_eq!(out[0].volume, Some(7));
    assert_eq!(out[0].return_24h_pct, over(12.0, 8.0));
    assert_eq!(out[0].return_since_tracked_pct, over(12.0, 6.0));
    assert_eq!(out[0].updated_at, 99);
    assert_eq!(out[1].symbol, "LABD");
    assert_eq!(out[1].return_24h_pct, None);
}

#[test]
fn a_day_is_cut_off() {
    assert_eq!(day_cutoff(1_700_000_000), 1_699_913_600);
    assert_eq!(day_cutoff(0), -86_400);
}

#[test]
fn unlisted_symbols_have_no_history() {
    let reply = refuse_unlisted("AAPL").unwrap();
    assert_eq!(reply.status, 404);
    assert_eq!(reply.points.len(), 0);
    assert!(refuse_unlisted("TQQQ").is_none());
}

#[test]
fn history_runs_forward() {
    let rows = vec![
        HistoryPoint { ts: 3, price: price(30.0) },
        HistoryPoint { ts: 2, price: price(20.0) },
        HistoryPoint { ts: 1, price: price(10.0) },
    ];
    let reply = history_reply(Some(rows.clone()));
    assert_eq!(reply.status, 200);
    assert_eq!(reply.points, vec![rows[2], rows[1], rows[0]]);
    let reply = history_reply(None);
    assert_eq!(reply.status, 200);
    assert_eq!(reply.points, vec![]);
}

#[test]
fn a_newer_row_moves_a_full_list_on() {
    assert!(LATEST_PRICES.ends_with(&format!("LIMIT {HISTORY_LIMIT}")));
    let point = |ts: i64| HistoryPoint { ts, price: price(ts as f64) };
    let rows: Vec<HistoryPoint> = (1..=100).rev().map(point).collect();
    let old = history_reply(Some(rows.clone())).points;
    let mut newer = vec![point(101)];
    newer.extend_from_slice(&rows[..99]);
    let new = history_reply(Some(newer)).points;
    assert_eq!(new.len(), HISTORY_LIMIT);
    assert_eq!(new[..99], old[1..]);
    assert_eq!(new[99], point(101));
}

#[test]
fn an_integer_zero_gives_no_return() {
    let body = br#"{"bars": {"TQQQ": [{"c": 0}, {"c": 5}]}}"#;
    match FetchTask::new(window()).fetched(body).unwrap() {
        BarsTask::Done(table) => assert_eq!(pct_change(&table.closes("TQQQ"), 1), None),
        BarsTask::Fetch(_) => panic!("a second page was asked for"),
    }
}
