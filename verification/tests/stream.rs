//! The stream of trades.

use stocks::baseline::{PrevCloses, Seed};
use stocks::feed::{feed_step, react, read_payload, startup};
use stocks::feed::{Event, FeedInput, FeedOutput, Reaction, SessionEnd, StartupStep};
use stocks::price::{Comparison, Price};
use stocks::payload::{handle_ws_payload, payload_pass, PayloadTask};
use stocks::requests::{auth_message, subscribe_message};

fn price(x: f64) -> Price {
    Price { bits: x.to_bits() }
}

fn closes() -> PrevCloses {
    let mut closes = PrevCloses::new();
    closes.record(&vec![
        Seed { symbol: "TQQQ".to_string(), close: price(50.0), price: None, volume: None },
        Seed { symbol: "SQQQ".to_string(), close: price(0.0), price: None, volume: None },
    ]);
    closes
}

#[test]
fn payloads_hold_trades_errors_and_others() {
    let text = r#"[
        {"T": "t", "S": "TQQQ", "p": 51.25, "s": 100},
        {"T": "t", "S": "SQQQ", "p": 9},
        {"T": "t", "p": 9},
        {"T": "t", "S": "SQQQ", "p": null},
        {"T": "error", "code": 401, "msg": "not authenticated"},
        {"T": "success"},
        {"T": 1},
        7
    ]"#;
    let events = read_payload(text).unwrap();
    assert_eq!(events.len(), 8);
    match &events[0] {
        Event::Trade { symbol, price: p } => {
            assert_eq!(symbol, "TQQQ");
            assert_eq!(*p, price(51.25));
        }
        _ => panic!("a trade was passed over"),
    }
    match &events[1] {
        Event::Trade { symbol, price: p } => {
            assert_eq!(symbol, "SQQQ");
            assert_eq!(*p, price(9.0));
        }
        _ => panic!("a trade was passed over"),
    }
    assert!(matches!(events[2], Event::Other));
    assert!(matches!(events[3], Event::Other));
    match &events[4] {
        Event::Fault { text } => {
            assert_eq!(text, "{\"T\":\"error\",\"code\":401,\"msg\":\"not authenticated\"}")
        }
        _ => panic!("an error was passed over"),
    }
    assert!(matches!(events[5], Event::Other));
    assert!(matches!(events[6], Event::Other));
    assert!(matches!(events[7], Event::Other));
}

#[test]
fn payloads_are_arrays() {
    assert_eq!(read_payload("[]").unwrap().len(), 0);
    assert!(read_payload("{\"T\": \"t\"}").is_err());
    assert!(read_payload("[1").is_err());
    assert!(read_payload("").is_err());
}

#[test]
fn trades_are_recorded_over_their_close() {
    let trade = |symbol: &str| Event::Trade { symbol: symbol.to_string(), price: price(51.0) };
    match react(&trade("TQQQ"), &closes()) {
        Reaction::Record(row) => {
            let over = Comparison { current: price(51.0), base: price(50.0) };
            assert_eq!(row.symbol, "TQQQ");
            assert_eq!(row.price, price(51.0));
            assert_eq!(row.change, Some(over));
            assert_eq!(row.percent_change, Some(over));
            assert_eq!(row.volume, None);
        }
        _ => panic!("a trade was not recorded"),
    }
    for symbol in ["SQQQ", "SOXL"] {
        match react(&trade(symbol), &closes()) {
            Reaction::Record(row) => {
                assert_eq!(row.symbol, symbol);
                assert_eq!(row.change, None);
                assert_eq!(row.percent_change, None);
            }
            _ => panic!("a trade was not recorded"),
        }
    }
}

#[test]
fn errors_are_reported_and_others_ignored() {
    match react(&Event::Fault { text: "x".to_string() }, &closes()) {
        Reaction::Report(text) => assert_eq!(text, "x"),
        _ => panic!("an error was not reported"),
    }
    assert!(matches!(react(&Event::Other, &closes()), Reaction::Nothing));
}

#[test]
fn a_session_opens_step_by_step() {
    let steps = startup(false, "id", "word");
    assert_eq!(steps.len(), 4);
    assert!(matches!(steps[0], StartupStep::RefreshBaseline));
    assert!(!steps[0].is_vital());
    for step in &steps[1..] {
        assert!(step.is_vital());
    }
    match (&steps[1], &steps[2], &steps[3]) {
        (StartupStep::Connect(url), StartupStep::Send(auth), StartupStep::Send(subscribe)) => {
            assert_eq!(url, "wss://stream.data.alpaca.markets/v2/iex");
            assert_eq!(*auth, auth_message("id", "word"));
            assert_eq!(*subscribe, subscribe_message());
        }
        _ => panic!("a session opened otherwise"),
    }
    let steps = startup(true, "id", "word");
    assert_eq!(steps.len(), 3);
    assert!(matches!(steps[0], StartupStep::Connect(_)));
}

#[test]
fn an_open_session_answers_what_happens() {
    match feed_step(FeedInput::Text("[]".to_string())) {
        FeedOutput::Handle(text) => assert_eq!(text, "[]"),
        _ => panic!("a text was not handled"),
    }
    assert!(matches!(feed_step(FeedInput::PingDue), FeedOutput::SendPing));
    assert!(matches!(feed_step(FeedInput::OtherMessage), FeedOutput::Nothing));
    match feed_step(FeedInput::EndOfStream) {
        FeedOutput::End(end) => assert_eq!(end.message(), "websocket stream closed"),
        _ => panic!("the end of the stream was passed over"),
    }
    match feed_step(FeedInput::Close) {
        FeedOutput::End(end) => {
            assert!(matches!(end, SessionEnd::ClosedByServer));
            assert_eq!(end.message(), "websocket closed by server");
        }
        _ => panic!("a close was passed over"),
    }
}

#[test]
fn trades_look_at_no_other_close() {
    let mut more = closes();
    more.record(&vec![Seed {
        symbol: "SOXL".to_string(),
        close: price(7.0),
        price: None,
        volume: None,
    }]);
    let trade = || Event::Trade { symbol: "TQQQ".to_string(), price: price(51.0) };
    match (react(&trade(), &closes()), react(&trade(), &more)) {
        (Reaction::Record(a), Reaction::Record(b)) => {
            assert_eq!(a.change, b.change);
            assert_eq!(a.percent_change, b.percent_change);
        }
        _ => panic!("a trade was not recorded"),
    }
}

fn handled(text: &str, fails: &str) -> (Vec<String>, Vec<String>) {
    let closes = closes();
    let mut rows = Vec::new();
    let mut reports = Vec::new();
    let mut task = handle_ws_payload(text).unwrap();
    loop {
        task = match task {
            PayloadTask::Look(t) => t.looked(&closes),
            PayloadTask::Insert(t) => {
                if t.row().symbol != fails {
                    rows.push(t.row().symbol.clone());
                }
                t.inserted()
            }
            PayloadTask::Report(t) => {
                reports.push(t.text().to_string());
                t.reported()
            }
            PayloadTask::Done => return (rows, reports),
        }
    }
}

#[test]
fn a_failed_insert_loses_no_other_row() {
    let text = r#"[{"T":"t","S":"A","p":1},{"T":"x"},{"T":"t","S":"B","p":2},
        {"T":"error"},{"T":"t","S":"C"},{"T":"t","S":"D","p":4}]"#;
    let (rows, reports) = handled(text, "");
    assert_eq!(rows, ["A", "B", "D"]);
    assert_eq!(reports, ["{\"T\":\"error\"}"]);
    let (rows, reports) = handled(text, "B");
    assert_eq!(rows, ["A", "D"]);
    assert_eq!(reports.len(), 1);
    assert_eq!(handled(text, "A").0, ["B", "D"]);
    assert_eq!(handled(text, "D").0, ["A", "B"]);
}

#[test]
fn a_payload_without_events_is_done() {
    assert!(matches!(payload_pass(vec![]), PayloadTask::Done));
    assert!(matches!(handle_ws_payload("[]"), Ok(PayloadTask::Done)));
    assert!(handle_ws_payload("{}").is_err());
}
