//! Reading snapshots, keeping previous closes and seeding the quote table.

use stocks::baseline::{read_snapshots, PrevCloses, ResponseError, Seed};
use stocks::price::{Comparison, Price};
use stocks::rows::{row_of_snapshot, row_of_trade};
use stocks::seeding::{begin_refresh, SeedTask};

fn price(x: f64) -> Price {
    Price { bits: x.to_bits() }
}

fn seed(symbol: &str, close: f64, last: Option<f64>, volume: Option<i64>) -> Seed {
    Seed { symbol: symbol.to_string(), close: price(close), price: last.map(price), volume }
}

#[test]
fn snapshots_with_a_previous_close_give_seeds() {
    let body = br#"{
        "TQQQ": {"prevDailyBar": {"c": 50.5}, "latestTrade": {"p": 51}, "dailyBar": {"v": 1234}},
        "SQQQ": {"prevDailyBar": {"c": 9}, "latestTrade": {"p": "x"}, "dailyBar": {"v": 1.5}},
        "SOXL": {"prevDailyBar": null, "latestTrade": {"p": 3.5}},
        "SOXS": {"prevDailyBar": {"c": -2}},
        "UPRO": 7
    }"#;
    let mut seeds = read_snapshots(body).unwrap();
    seeds.sort_by(|a, b| a.symbol.cmp(&b.symbol));
    assert_eq!(seeds.len(), 3);
    assert_eq!(seeds[0].symbol, "SOXS");
    assert_eq!(seeds[0].close, price(-2.0));
    assert_eq!(seeds[0].price, None);
    assert_eq!(seeds[0].volume, None);
    assert_eq!(seeds[1].symbol, "SQQQ");
    assert_eq!(seeds[1].close, price(9.0));
    assert_eq!(seeds[1].price, None);
    assert_eq!(seeds[1].volume, None);
    assert_eq!(seeds[2].symbol, "TQQQ");
    assert_eq!(seeds[2].close, price(50.5));
    assert_eq!(seeds[2].price, Some(price(51.0)));
    assert_eq!(seeds[2].volume, Some(1234));
}

#[test]
fn volumes_are_integers_that_fit() {
    let body = br#"{"A": {"prevDailyBar": {"c": 1}, "dailyBar": {"v": 9223372036854775807}},
        "B": {"prevDailyBar": {"c": 1}, "dailyBar": {"v": 9223372036854775808}},
        "C": {"prevDailyBar": {"c": 1}, "dailyBar": {"v": -5}}}"#;
    let mut seeds = read_snapshots(body).unwrap();
    seeds.sort_by(|a, b| a.symbol.cmp(&b.symbol));
    assert_eq!(seeds[0].volume, Some(i64::MAX));
    assert_eq!(seeds[1].volume, None);
    assert_eq!(seeds[2].volume, Some(-5));
}

#[test]
fn each_symbol_gives_one_seed() {
    let body = br#"{"A": {"prevDailyBar": {"c": 1}}, "A": {"prevDailyBar": {"c": 2}}}"#;
    let seeds = read_snapshots(body).unwrap();
    assert_eq!(seeds.len(), 1);
    assert_eq!(seeds[0].close, price(2.0));
}

#[test]
fn other_answers_are_refused() {
    assert!(matches!(read_snapshots(b"{\"A\":"), Err(ResponseError::Malformed(_))));
    assert!(matches!(read_snapshots(b"\xff"), Err(ResponseError::Malformed(_))));
    match read_snapshots(b" [1, \"x\",  null, -2, 1.5, true]") {
        Err(ResponseError::Unexpected(text)) => {
            assert_eq!(text, "unexpected snapshots response: [1,\"x\",null,-2,1.5,true]")
        }
        _ => panic!("an array was taken for snapshots"),
    }
    assert_eq!(read_snapshots(b"{}").unwrap().len(), 0);
}

#[test]
fn recorded_closes_replace_and_remain() {
    let mut closes = PrevCloses::new();
    assert!(closes.is_empty());
    assert_eq!(closes.get("A"), None);
    closes.record(&vec![seed("A", 1.0, None, None), seed("B", 2.0, None, None)]);
    closes.record(&vec![seed("B", 3.0, None, None), seed("C", 4.0, None, None)]);
    assert!(!closes.is_empty());
    assert_eq!(closes.get("A"), Some(price(1.0)));
    assert_eq!(closes.get("B"), Some(price(3.0)));
    assert_eq!(closes.get("C"), Some(price(4.0)));
    assert_eq!(closes.get("D"), None);
}

#[test]
fn rows_of_snapshots_keep_the_change_over_any_close() {
    let row = row_of_snapshot("A", price(12.0), price(10.0), Some(5));
    let over = Comparison { current: price(12.0), base: price(10.0) };
    assert_eq!(row.symbol, "A");
    assert_eq!(row.price, price(12.0));
    assert_eq!(row.change, Some(over));
    assert_eq!(row.percent_change, Some(over));
    assert_eq!(row.volume, Some(5));
    let row = row_of_snapshot("A", price(12.0), price(0.0), None);
    assert_eq!(row.change, Some(Comparison { current: price(12.0), base: price(0.0) }));
    assert_eq!(row.percent_change, None);
}

#[test]
fn rows_of_trades_need_a_positive_close() {
    let over = Comparison { current: price(12.0), base: price(10.0) };
    let row = row_of_trade("A", price(12.0), Some(price(10.0)));
    assert_eq!(row.change, Some(over));
    assert_eq!(row.percent_change, Some(over));
    assert_eq!(row.volume, None);
    for close in [None, Some(price(0.0)), Some(price(-1.0))] {
        let row = row_of_trade("A", price(12.0), close);
        assert_eq!(row.symbol, "A");
        assert_eq!(row.price, price(12.0));
        assert_eq!(row.change, None);
        assert_eq!(row.percent_change, None);
    }
}

#[test]
fn a_pass_seeds_symbols_without_rows() {
    let seeds = vec![
        seed("A", 10.0, Some(11.0), Some(1)),
        seed("B", 10.0, Some(12.0), None),
        seed("C", 10.0, None, None),
        seed("D", 0.0, Some(13.0), None),
        seed("E", 10.0, Some(14.0), None),
    ];
    let counts = [Some(0), Some(3), Some(0), None, Some(0)];
    let stored = [true, true, true, false, true];
    let mut asked = Vec::new();
    let mut rows = Vec::new();
    let mut task = begin_refresh(&mut PrevCloses::new(), seeds);
    let report = loop {
        task = match task {
            SeedTask::Count(t) => {
                let i = asked.len();
                asked.push(t.symbol().to_string());
                t.counted(counts[i])
            }
            SeedTask::Insert(t) => {
                rows.push((t.row().symbol.clone(), t.row().percent_change));
                t.inserted(stored[asked.len() - 1])
            }
            SeedTask::Done(report) => break report,
        }
    };
    assert_eq!(asked, ["A", "B", "C", "D", "E"]);
    assert_eq!(rows.len(), 3);
    assert_eq!(rows[0].0, "A");
    assert_eq!(rows[0].1, Some(Comparison { current: price(11.0), base: price(10.0) }));
    assert_eq!(rows[1], ("D".to_string(), None));
    assert_eq!(rows[2].0, "E");
    assert_eq!(report.seeded, 2);
    assert_eq!(report.symbols, 5);
}

#[test]
fn a_pass_over_symbols_with_rows_stores_nothing() {
    let mut closes = PrevCloses::new();
    let mut task = begin_refresh(
        &mut closes,
        vec![seed("A", 1.0, Some(2.0), None), seed("B", 1.0, Some(2.0), None)],
    );
    let report = loop {
        task = match task {
            SeedTask::Count(t) => t.counted(Some(1)),
            SeedTask::Insert(_) => panic!("a row was due"),
            SeedTask::Done(report) => break report,
        }
    };
    assert_eq!(report.seeded, 0);
    assert_eq!(report.symbols, 2);
    match begin_refresh(&mut closes, vec![]) {
        SeedTask::Done(report) => assert_eq!(report.symbols, 0),
        _ => panic!("a pass over no seeds asked for something"),
    }
}

#[test]
fn snapshots_and_trades_agree_over_a_positive_close() {
    let seeded = row_of_snapshot("A", price(9.5), price(10.0), Some(5));
    let traded = row_of_trade("A", price(9.5), Some(price(10.0)));
    assert_eq!(seeded.change, traded.change);
    assert_eq!(seeded.percent_change, traded.percent_change);
}

#[test]
fn integers_are_read_as_the_nearest_doubles() {
    let cases: [(&str, u64); 12] = [
        ("0", 0),
        ("1", 0x3ff0_0000_0000_0000),
        ("3", 0x4008_0000_0000_0000),
        ("-3", 0xc008_0000_0000_0000),
        ("9007199254740991", 0x433f_ffff_ffff_ffff),
        ("9007199254740992", 0x4340_0000_0000_0000),
        ("9007199254740993", 0x4340_0000_0000_0000),
        ("9007199254740994", 0x4340_0000_0000_0001),
        ("9007199254740995", 0x4340_0000_0000_0002),
        ("-9007199254740995", 0xc340_0000_0000_0002),
        ("18446744073709551615", 0x43f0_0000_0000_0000),
        ("-9223372036854775808", 0xc3e0_0000_0000_0000),
    ];
    for (text, bits) in cases {
        let body = format!("{{\"A\":{{\"prevDailyBar\":{{\"c\":{text}}}}}}}");
        let seeds = read_snapshots(body.as_bytes()).unwrap();
        assert_eq!(seeds[0].close, Price { bits });
    }
}

#[test]
fn an_integer_zero_close_gives_no_percentage() {
    let seeds = read_snapshots(br#"{"A": {"prevDailyBar": {"c": 0}}}"#).unwrap();
    let close = seeds[0].close;
    assert!(close.is_zero());
    assert_eq!(row_of_snapshot("A", price(1.0), close, None).percent_change, None);
    assert_eq!(row_of_trade("A", price(1.0), Some(close)).percent_change, None);
}

#[test]
fn closes_are_known_before_the_first_question() {
    let mut closes = PrevCloses::new();
    closes.record(&vec![seed("A", 1.0, None, None), seed("B", 2.0, None, None)]);
    let seeds = vec![seed("B", 3.0, Some(4.0), None), seed("C", 5.0, None, None)];
    match begin_refresh(&mut closes, seeds) {
        SeedTask::Count(t) => assert_eq!(t.symbol(), "B"),
        _ => panic!("a refresh began otherwise"),
    }
    assert_eq!(closes.get("A"), Some(price(1.0)));
    assert_eq!(closes.get("B"), Some(price(3.0)));
    assert_eq!(closes.get("C"), Some(price(5.0)));
}
