//! The stream of trades: how a session opens, what it does with what arrives, and
//! which rows the trades become.

use vstd::prelude::*;
use crate::baseline::{distinct_symbols, recorded, recorded_closes, PrevCloses, SeedView};
use crate::json::{
    array_text, compact, contents, contents_of, parse_array, read_price, read_text, to_compact,
    Json, Malformed,
};
use crate::price::{Comparison, Price};
use crate::requests::{auth_json, auth_message, subscribe_json, subscribe_message, ALPACA_WS_URL};
use crate::rows::{row_of_trade, trade_row, QuoteRow, RowView};
use crate::sequences::views;
use crate::text::same_text;

verus! {

/// Seconds between two pings of a session.
pub const PING_SECS: u64 = 30;

/// Seconds between the end of a session and the next one.
pub const RECONNECT_SECS: u64 = 5;

/// What an element of a payload tells.
#[derive(Debug)]
pub enum Event {
    /// A trade.
    Trade { symbol: String, price: Price },
    /// An error of the service, with the text of the whole element.
    Fault { text: String },
    /// Anything else; a trade without a symbol or a price is such.
    Other,
}

/// What an event holds.
pub enum EventView {
    Trade { symbol: Seq<char>, price: Price },
    Fault { text: Seq<char> },
    Other,
}

impl View for Event {
    type V = EventView;

    open spec fn view(&self) -> EventView {
        match self {
            Event::Trade { symbol, price } => EventView::Trade { symbol: symbol@, price: *price },
            Event::Fault { text } => EventView::Fault { text: text@ },
            Event::Other => EventView::Other,
        }
    }
}

/// The event that an element of a payload spells.
pub open spec fn event_of(element: Json) -> EventView {
    match element.text_under("T"@) {
        Some(kind) => if kind == "t"@ {
            match (element.text_under("S"@), element.price_under("p"@)) {
                (Some(symbol), Some(price)) => EventView::Trade { symbol, price },
                _ => EventView::Other,
            }
        } else if kind == "error"@ {
            EventView::Fault { text: compact(element) }
        } else {
            EventView::Other
        },
        None => EventView::Other,
    }
}

/// The events of a payload, in order.
pub open spec fn events_of(elements: Seq<Json>) -> Seq<EventView> {
    elements.map_values(|element: Json| event_of(element))
}

/// Reads an element of a payload.
pub fn event_in(element: &serde_json::Value) -> (r: Event)
    ensures
        r@ == event_of(contents(*element)),
{
    match read_text(element, "T") {
        Some(kind) => {
            if same_text(kind, "t") {
                match (read_text(element, "S"), read_price(element, "p")) {
                    (Some(symbol), Some(price)) => Event::Trade {
                        symbol: symbol.to_owned(),
                        price,
                    },
                    _ => Event::Other,
                }
            } else if same_text(kind, "error") {
                Event::Fault { text: to_compact(element) }
            } else {
                Event::Other
            }
        },
        None => Event::Other,
    }
}

/// Reads the elements of a payload.
pub fn events_in(elements: &Vec<serde_json::Value>) -> (r: Vec<Event>)
    ensures
        views(r@) == events_of(contents_of(elements@)),
{
    let mut events: Vec<Event> = Vec::new();
    let mut i: usize = 0;
    while i < elements.len()
        invariant
            i <= elements.len(),
            events@.len() == i,
            forall|k: int|
                0 <= k < i ==> (#[trigger] events@[k])@ == event_of(contents(elements@[k])),
        decreases elements.len() - i,
    {
        events.push(event_in(&elements[i]));
        i += 1;
    }
    assert(views(events@) =~= events_of(contents_of(elements@)));
    events
}

/// Reads the text of a payload. One that spells no array is refused.
pub fn read_payload(text: &str) -> (r: Result<Vec<Event>, Malformed>)
    ensures
        match array_text(text@) {
            Some(elements) => r matches Ok(events) && views(events@) == events_of(elements),
            None => r is Err,
        },
{
    match parse_array(text) {
        Ok(elements) => Ok(events_in(&elements)),
        Err(cause) => Err(Malformed { cause }),
    }
}

/// What an event calls for.
#[derive(Debug)]
pub enum Reaction {
    /// Store this row.
    Record(QuoteRow),
    /// Report this error of the service.
    Report(String),
    Nothing,
}

/// What a reaction holds.
pub enum ReactionView {
    Record(RowView),
    Report(Seq<char>),
    Nothing,
}

impl View for Reaction {
    type V = ReactionView;

    open spec fn view(&self) -> ReactionView {
        match self {
            Reaction::Record(row) => ReactionView::Record(row@),
            Reaction::Report(text) => ReactionView::Report(text@),
            Reaction::Nothing => ReactionView::Nothing,
        }
    }
}

/// What an event calls for, where the given previous closes are known.
pub open spec fn reaction_to(event: EventView, closes: Map<Seq<char>, Price>) -> ReactionView {
    match event {
        EventView::Trade { symbol, price } => ReactionView::Record(
            trade_row(
                symbol,
                price,
                if closes.contains_key(symbol) {
                    Some(closes[symbol])
                } else {
                    None
                },
            ),
        ),
        EventView::Fault { text } => ReactionView::Report(text),
        EventView::Other => ReactionView::Nothing,
    }
}

/// Decides what an event calls for.
pub fn react(event: &Event, closes: &PrevCloses) -> (r: Reaction)
    ensures
        r@ == reaction_to(event@, closes@),
{
    match event {
        Event::Trade { symbol, price } => {
            let close = closes.get(symbol.as_str());
            Reaction::Record(row_of_trade(symbol.as_str(), *price, close))
        },
        Event::Fault { text } => Reaction::Report(text.clone()),
        Event::Other => Reaction::Nothing,
    }
}

/// A row is stored for an element of a payload exactly where it is a trade with a
/// symbol and a price, and a report is made exactly where it is an error.
pub proof fn reactions_to_elements(element: Json, closes: Map<Seq<char>, Price>)
    ensures
        ({
            let kind = element.text_under("T"@);
            let symbol = element.text_under("S"@);
            let price = element.price_under("p"@);
            let reaction = reaction_to(event_of(element), closes);
            &&& reaction is Record <==> kind == Some("t"@) && symbol is Some && price is Some
            &&& reaction matches ReactionView::Record(row) ==> Some(row.symbol) == symbol && Some(
                row.price,
            ) == price && row.volume is None
            &&& reaction is Report <==> kind == Some("error"@)
        }),
{
    reveal_strlit("t");
    reveal_strlit("error");
    assert("t"@.len() != "error"@.len());
}

/// A reaction to a trade depends on no previous close but its own symbol's.
pub proof fn trades_look_at_their_own_close(
    symbol: Seq<char>,
    price: Price,
    closes: Map<Seq<char>, Price>,
    other: Seq<char>,
    close: Price,
)
    requires
        other != symbol,
    ensures
        reaction_to(EventView::Trade { symbol, price }, closes.insert(other, close))
            == reaction_to(EventView::Trade { symbol, price }, closes),
{
}

/// Once the closes of a snapshot are recorded, a trade of one of its symbols is
/// compared with that symbol's close, where it is positive.
pub proof fn recorded_closes_reach_trades(
    known: Map<Seq<char>, Price>,
    seeds: Seq<SeedView>,
    i: int,
    price: Price,
)
    requires
        distinct_symbols(seeds),
        0 <= i < seeds.len(),
        seeds[i].close.positive(),
    ensures
        ({
            let trade = EventView::Trade { symbol: seeds[i].symbol, price };
            let over = Comparison { current: price, base: seeds[i].close };
            reaction_to(trade, recorded(known, seeds)) matches ReactionView::Record(row)
                && row.change == Some(over) && row.percent_change == Some(over)
        }),
{
    recorded_closes(known, seeds, seeds[i].symbol);
}

/// A step of opening a session.
#[derive(Debug)]
pub enum StartupStep {
    /// Refresh the previous closes.
    RefreshBaseline,
    /// Connect to this address.
    Connect(String),
    /// Send this text.
    Send(String),
}

/// What a step of opening a session holds.
pub enum StartupStepView {
    RefreshBaseline,
    Connect(Seq<char>),
    Send(Seq<char>),
}

impl View for StartupStep {
    type V = StartupStepView;

    open spec fn view(&self) -> StartupStepView {
        match self {
            StartupStep::RefreshBaseline => StartupStepView::RefreshBaseline,
            StartupStep::Connect(url) => StartupStepView::Connect(url@),
            StartupStep::Send(text) => StartupStepView::Send(text@),
        }
    }
}

/// The steps that open a session, in order. The previous closes are refreshed
/// first where none are known.
pub open spec fn startup_of(baseline_known: bool, key: Seq<char>, secret: Seq<char>) -> Seq<
    StartupStepView,
> {
    let opening = seq![
        StartupStepView::Connect(ALPACA_WS_URL@),
        StartupStepView::Send(compact(auth_json(key, secret))),
        StartupStepView::Send(compact(subscribe_json())),
    ];
    if baseline_known {
        opening
    } else {
        seq![StartupStepView::RefreshBaseline] + opening
    }
}

/// The steps that open a session.
pub fn startup(baseline_known: bool, key: &str, secret: &str) -> (r: Vec<StartupStep>)
    ensures
        views(r@) == startup_of(baseline_known, key@, secret@),
{
    let mut steps: Vec<StartupStep> = Vec::new();
    if !baseline_known {
        steps.push(StartupStep::RefreshBaseline);
    }
    steps.push(StartupStep::Connect(ALPACA_WS_URL.to_owned()));
    steps.push(StartupStep::Send(auth_message(key, secret)));
    steps.push(StartupStep::Send(subscribe_message()));
    assert(views(steps@) =~= startup_of(baseline_known, key@, secret@));
    steps
}

impl StartupStep {
    /// Whether a session ends where the step fails. It goes on without a baseline,
    /// which is refreshed on a schedule anyway.
    pub fn is_vital(&self) -> (r: bool)
        ensures
            r == !(self@ is RefreshBaseline),
    {
        match self {
            StartupStep::RefreshBaseline => false,
            _ => true,
        }
    }
}

/// A baseline is refreshed before a session connects exactly where none is known,
/// and a session authenticates before it subscribes.
pub proof fn startup_order(baseline_known: bool, key: Seq<char>, secret: Seq<char>)
    ensures
        ({
            let steps = startup_of(baseline_known, key, secret);
            let connect = if baseline_known {
                0
            } else {
                1int
            };
            &&& !baseline_known <==> steps[0] is RefreshBaseline
            &&& forall|i: int|
                1 <= i < steps.len() ==> !((#[trigger] steps[i]) is RefreshBaseline)
            &&& steps[connect] == StartupStepView::Connect(ALPACA_WS_URL@)
            &&& steps[connect + 1] == StartupStepView::Send(compact(auth_json(key, secret)))
            &&& steps[connect + 2] == StartupStepView::Send(compact(subscribe_json()))
            &&& steps.len() == connect + 3
        }),
{
}

/// What happens to an open session.
#[derive(Debug)]
pub enum FeedInput {
    /// The stream is at its end.
    EndOfStream,
    /// A text arrived.
    Text(String),
    /// The server closes the connection.
    Close,
    /// Another kind of message arrived.
    OtherMessage,
    /// It is time for a ping.
    PingDue,
}

/// Why a session ends.
#[derive(Debug)]
pub enum SessionEnd {
    StreamClosed,
    ClosedByServer,
}

impl SessionEnd {
    /// The words for the end of a session.
    pub open spec fn words(self) -> Seq<char> {
        match self {
            SessionEnd::StreamClosed => "websocket stream closed"@,
            SessionEnd::ClosedByServer => "websocket closed by server"@,
        }
    }

    /// The words for the end of a session.
    pub fn message(&self) -> (r: &'static str)
        ensures
            r@ == self.words(),
    {
        match self {
            SessionEnd::StreamClosed => "websocket stream closed",
            SessionEnd::ClosedByServer => "websocket closed by server",
        }
    }
}

/// What an open session does.
#[derive(Debug)]
pub enum FeedOutput {
    /// It ends.
    End(SessionEnd),
    /// It handles the text of a payload.
    Handle(String),
    /// It sends a ping.
    SendPing,
    Nothing,
}

/// What an open session does when something happens to it.
pub open spec fn feed_output(input: FeedInput) -> FeedOutput {
    match input {
        FeedInput::EndOfStream => FeedOutput::End(SessionEnd::StreamClosed),
        FeedInput::Text(text) => FeedOutput::Handle(text),
        FeedInput::Close => FeedOutput::End(SessionEnd::ClosedByServer),
        FeedInput::OtherMessage => FeedOutput::Nothing,
        FeedInput::PingDue => FeedOutput::SendPing,
    }
}

/// Decides what an open session does when something happens to it.
pub fn feed_step(input: FeedInput) -> (r: FeedOutput)
    ensures
        r == feed_output(input),
        input matches FeedInput::Text(text) ==> r == FeedOutput::Handle(text),
        r is Handle ==> input is Text,
        r is End <==> input is EndOfStream || input is Close,
        r is SendPing <==> input is PingDue,
{
    match input {
        FeedInput::EndOfStream => FeedOutput::End(SessionEnd::StreamClosed),
        FeedInput::Text(text) => FeedOutput::Handle(text),
        FeedInput::Close => FeedOutput::End(SessionEnd::ClosedByServer),
        FeedInput::OtherMessage => FeedOutput::Nothing,
        FeedInput::PingDue => FeedOutput::SendPing,
    }
}

/// Every text that arrives is handled, and exactly as it arrived, of whatever length
/// and contents; and nothing but a text is handled.
pub proof fn every_text_is_handled(text: String, input: FeedInput)
    ensures
        feed_output(FeedInput::Text(text)) == FeedOutput::Handle(text),
        feed_output(FeedInput::Text(text)) matches FeedOutput::Handle(handled) && handled@
            == text@,
        feed_output(input) is Handle <==> input is Text,
        feed_output(input) matches FeedOutput::Handle(handled) ==> input == FeedInput::Text(
            handled,
        ),
{
}

/// A session ends exactly where its stream does or the server closes it, each with its
/// own reason, sends a ping exactly where one is due, and passes over nothing but
/// messages of other kinds.
pub proof fn sessions_end_where_their_stream_does(input: FeedInput)
    ensures
        feed_output(input) is End <==> input is EndOfStream || input is Close,
        input is EndOfStream <==> feed_output(input) == FeedOutput::End(SessionEnd::StreamClosed),
        input is Close <==> feed_output(input) == FeedOutput::End(SessionEnd::ClosedByServer),
        feed_output(input) is SendPing <==> input is PingDue,
        feed_output(input) is Nothing <==> input is OtherMessage,
{
}

/// An element is a trade exactly where `t` stands under its `T`, a text under its `S`
/// and a number under its `p`, and the trade is of that text at the price of that
/// number, whatever they are; it is a fault exactly where `error` stands under its
/// `T`, and the text of the fault is that of the whole element.
pub proof fn events_hold_what_elements_spell(element: Json)
    ensures
        ({
            let event = event_of(element);
            let kind = element.field("T"@);
            let symbol = element.field("S"@);
            let price = element.field("p"@);
            let trade = kind == Some(Json::Text("t"@)) && (symbol matches Some(Json::Text(_)))
                && (price matches Some(Json::Number(_)));
            let fault = kind == Some(Json::Text("error"@));
            &&& event is Trade <==> trade
            &&& event is Fault <==> fault
            &&& event is Other <==> !trade && !fault
            &&& event matches EventView::Trade { symbol: s, price: p } ==> symbol == Some(
                Json::Text(s),
            ) && (price matches Some(number) && number.price() == Some(p))
            &&& event matches EventView::Fault { text } ==> text == compact(element)
        }),
{
    reveal_strlit("t");
    reveal_strlit("error");
    assert("t"@.len() != "error"@.len());
}

/// Elements that agree under `T`, `S` and `p` are the same trade, whatever else they
/// hold.
pub proof fn trades_look_under_three_keys(element: Json, other: Json)
    requires
        element.field("T"@) == other.field("T"@),
        element.field("S"@) == other.field("S"@),
        element.field("p"@) == other.field("p"@),
    ensures
        event_of(element) is Trade == event_of(other) is Trade,
        event_of(element) is Trade ==> event_of(element) == event_of(other),
{
}

/// There is one event for each element of a payload, at its place.
pub proof fn events_stand_in_place(elements: Seq<Json>, i: int)
    requires
        0 <= i < elements.len(),
    ensures
        events_of(elements).len() == elements.len(),
        events_of(elements)[i] == event_of(elements[i]),
{
}

/// Every trade is recorded, at whatever price and of whatever symbol: its row holds
/// that symbol and that price, no volume, and the price against the symbol's own close
/// as its change and its percentage where a close above zero is known, and neither
/// otherwise. Every fault is reported with its text, and nothing else is done.
pub proof fn every_trade_is_recorded(
    symbol: Seq<char>,
    price: Price,
    text: Seq<char>,
    closes: Map<Seq<char>, Price>,
)
    ensures
        reaction_to(EventView::Trade { symbol, price }, closes) matches ReactionView::Record(row) && {
            let known = closes.contains_key(symbol) && 0 < closes[symbol].bits
                <= 0x7ff0_0000_0000_0000;
            let over = Comparison { current: price, base: closes[symbol] };
            &&& row.symbol == symbol
            &&& row.price == price
            &&& row.volume is None
            &&& known ==> row.change == Some(over) && row.percent_change == Some(over)
            &&& !known ==> row.change is None && row.percent_change is None
        },
        reaction_to(EventView::Fault { text }, closes) == ReactionView::Report(text),
        reaction_to(EventView::Other, closes) == ReactionView::Nothing,
{
}

/// Events, reactions and steps stand for their own parts.
pub proof fn events_stand_for_their_parts(event: Event, reaction: Reaction, step: StartupStep)
    ensures
        match event {
            Event::Trade { symbol, price } => event@ == (EventView::Trade {
                symbol: symbol@,
                price,
            }),
            Event::Fault { text } => event@ == (EventView::Fault { text: text@ }),
            Event::Other => event@ is Other,
        },
        match reaction {
            Reaction::Record(row) => reaction@ == ReactionView::Record(row@),
            Reaction::Report(text) => reaction@ == ReactionView::Report(text@),
            Reaction::Nothing => reaction@ is Nothing,
        },
        match step {
            StartupStep::RefreshBaseline => step@ is RefreshBaseline,
            StartupStep::Connect(url) => step@ == StartupStepView::Connect(url@),
            StartupStep::Send(text) => step@ == StartupStepView::Send(text@),
        },
{
}

/// A session that knows its baseline opens with the same steps as one that does not,
/// but for the refresh in front; and the keys that it is given reach nothing but the
/// message that authenticates it.
pub proof fn openings_differ_in_the_refresh(
    key: Seq<char>,
    secret: Seq<char>,
    other_key: Seq<char>,
    other_secret: Seq<char>,
)
    ensures
        startup_of(false, key, secret).drop_first() == startup_of(true, key, secret),
        startup_of(true, key, secret).len() == 3,
        startup_of(true, key, secret)[0] == startup_of(true, other_key, other_secret)[0],
        startup_of(true, key, secret)[2] == startup_of(true, other_key, other_secret)[2],
{
    assert(startup_of(false, key, secret).drop_first() =~= startup_of(true, key, secret));
}

/// The two ends of a session are told apart by their words, which speak of the
/// websocket.
pub proof fn ends_are_told_apart(end: SessionEnd)
    ensures
        end.words() == "websocket stream closed"@ <==> end is StreamClosed,
        end.words() == "websocket closed by server"@ <==> end is ClosedByServer,
{
    reveal_strlit("websocket stream closed");
    reveal_strlit("websocket closed by server");
    assert("websocket stream closed"@.len() != "websocket closed by server"@.len());
}

/// A session pings twice a minute, and twelve sessions could be tried in the minute
/// after the end of one.
pub proof fn sessions_keep_their_pace()
    ensures
        PING_SECS * 2 == 60,
        RECONNECT_SECS * 12 == 60,
{
}

} // verus!
