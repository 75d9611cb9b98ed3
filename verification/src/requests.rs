//! What is sent to the market-data service.

use vstd::prelude::*;
use crate::dates::{Window, WindowView};
use crate::json::{
    array_value, compact, contents, contents_of, first_member_is_found, lookup, object_value,
    text_value, to_compact, Json,
};
use crate::text::{joined, texts};
use crate::tickers::{symbol_list, symbols, ticker_symbols, STREAM_SYMBOL_LIMIT};

verus! {

/// The address of the stream of trades.
pub const ALPACA_WS_URL: &'static str = "wss://stream.data.alpaca.markets/v2/iex";

/// The front of every address of the data service.
pub const ALPACA_DATA_BASE: &'static str = "https://data.alpaca.markets/v2";

/// Seconds between two refreshes of the previous closes.
pub const PREV_CLOSE_REFRESH_SECS: u64 = 6 * 3600;

/// Seconds between two refreshes of the returns.
pub const RETURNS_REFRESH_SECS: u64 = 24 * 3600;

/// The address at which the snapshots of all followed symbols are asked for.
pub open spec fn snapshots_address() -> Seq<char> {
    ALPACA_DATA_BASE@ + "/stocks/snapshots?symbols="@ + joined(ticker_symbols(), ","@)
        + "&feed=iex"@
}

/// The address at which the first page of bars of a window is asked for.
pub open spec fn first_page_address(window: WindowView) -> Seq<char> {
    ALPACA_DATA_BASE@ + "/stocks/bars?symbols="@ + joined(ticker_symbols(), ","@)
        + "&timeframe=1Day&start="@ + window.start + "&end="@ + window.end
        + "&feed=iex&limit=10000&adjustment=split"@
}

/// The address at which a page of bars of a window is asked for.
pub open spec fn bars_address(window: WindowView, page_token: Option<Seq<char>>) -> Seq<char> {
    match page_token {
        Some(token) => first_page_address(window) + "&page_token="@ + token,
        None => first_page_address(window),
    }
}

/// The address at which the snapshots of all followed symbols are asked for.
pub fn snapshots_url() -> (r: String)
    ensures
        r@ == snapshots_address(),
{
    let mut url = ALPACA_DATA_BASE.to_owned();
    url.append("/stocks/snapshots?symbols=");
    url.append(symbol_list().as_str());
    url.append("&feed=iex");
    url
}

/// The address at which a page of bars of a window is asked for.
pub fn bars_url(window: &Window, page_token: &Option<String>) -> (r: String)
    ensures
        r@ == bars_address(
            window@,
            match page_token {
                Some(token) => Some(token@),
                None => None,
            },
        ),
{
    let mut url = ALPACA_DATA_BASE.to_owned();
    url.append("/stocks/bars?symbols=");
    url.append(symbol_list().as_str());
    url.append("&timeframe=1Day&start=");
    url.append(window.start.as_str());
    url.append("&end=");
    url.append(window.end.as_str());
    url.append("&feed=iex&limit=10000&adjustment=split");
    match page_token {
        Some(token) => {
            url.append("&page_token=");
            url.append(token.as_str());
        },
        None => {},
    }
    url
}

/// The message that authenticates a connection to the stream.
pub open spec fn auth_json(key: Seq<char>, secret: Seq<char>) -> Json {
    Json::Object(
        seq![
            ("action"@, Json::Text("auth"@)),
            ("key"@, Json::Text(key)),
            ("secret"@, Json::Text(secret)),
        ],
    )
}

/// The message that subscribes to the trades of all followed symbols.
pub open spec fn subscribe_json() -> Json {
    Json::Object(
        seq![
            ("action"@, Json::Text("subscribe"@)),
            (
                "trades"@,
                Json::Array(ticker_symbols().map_values(|s: Seq<char>| Json::Text(s))),
            ),
        ],
    )
}

/// The message that authenticates a connection to the stream.
pub fn auth_message(key: &str, secret: &str) -> (r: String)
    ensures
        r@ == compact(auth_json(key@, secret@)),
{
    let mut entries: Vec<(String, serde_json::Value)> = Vec::new();
    entries.push(("action".to_owned(), text_value("auth")));
    entries.push(("key".to_owned(), text_value(key)));
    entries.push(("secret".to_owned(), text_value(secret)));
    proof {
        reveal_strlit("action");
        reveal_strlit("key");
        reveal_strlit("secret");
    }
    let message = object_value(entries);
    assert(contents(message)->Object_0 =~= auth_json(key@, secret@)->Object_0);
    to_compact(&message)
}

/// The message that subscribes to the trades of all followed symbols.
pub fn subscribe_message() -> (r: String)
    ensures
        r@ == compact(subscribe_json()),
{
    let all = symbols();
    let mut trades: Vec<serde_json::Value> = Vec::new();
    let mut i: usize = 0;
    while i < all.len()
        invariant
            i <= all.len(),
            texts(all@) == ticker_symbols(),
            trades@.len() == i,
            forall|k: int|
                0 <= k < i ==> contents(#[trigger] trades@[k]) == Json::Text(ticker_symbols()[k]),
        decreases all.len() - i,
    {
        assert(ticker_symbols()[i as int] == all@[i as int]@);
        trades.push(text_value(all[i]));
        i += 1;
    }
    proof {
        assert(ticker_symbols().len() == all@.len());
        assert(contents_of(trades@) =~= ticker_symbols().map_values(
            |s: Seq<char>| Json::Text(s),
        ));
        reveal_strlit("action");
        reveal_strlit("trades");
    }
    let mut entries: Vec<(String, serde_json::Value)> = Vec::new();
    entries.push(("action".to_owned(), text_value("subscribe")));
    entries.push(("trades".to_owned(), array_value(trades)));
    let message = object_value(entries);
    assert(contents(message)->Object_0 =~= subscribe_json()->Object_0);
    to_compact(&message)
}

/// A subscription names every followed symbol, and no more than one connection to
/// the stream may follow.
pub proof fn subscription_fits_one_stream()
    ensures
        subscribe_json().field("trades"@) matches Some(Json::Array(trades)) && trades.len()
            == ticker_symbols().len() && trades.len() <= STREAM_SYMBOL_LIMIT && forall|i: int|
            0 <= i < trades.len() ==> #[trigger] trades[i] == Json::Text(ticker_symbols()[i]),
{
    reveal_strlit("action");
    reveal_strlit("trades");
    assert("action"@[0] != "trades"@[0]);
    reveal_with_fuel(lookup, 3);
    let members = subscribe_json()->Object_0;
    assert(members.drop_first()[0].0 == "trades"@);
}

/// Every page is asked for the same symbols and days as the first one, only with
/// its token behind, and in prices adjusted for splits.
pub proof fn pages_ask_for_split_adjusted_bars(window: WindowView, page_token: Option<Seq<char>>)
    ensures
        first_page_address(window).is_prefix_of(bars_address(window, page_token)),
        "&adjustment=split"@.is_suffix_of(first_page_address(window)),
{
    reveal_strlit("&adjustment=split");
    reveal_strlit("&feed=iex&limit=10000&adjustment=split");
    assert("&adjustment=split"@ =~= "&feed=iex&limit=10000&adjustment=split"@.skip(21));
}

/// A page other than the first is asked for at the address of the first, with
/// `&page_token=` and its token behind, whatever the token is.
pub proof fn tokens_stand_behind_the_first_address(window: WindowView, token: Seq<char>)
    ensures
        bars_address(window, None) == first_page_address(window),
        bars_address(window, Some(token)) == bars_address(window, None) + "&page_token="@ + token,
{
}

/// The bars of every window are asked for at one address of the data service, for all
/// followed symbols, by the day, from the window's first day to its last, from the feed
/// of one exchange, ten thousand to a page and adjusted for splits.
pub proof fn windows_stand_in_their_address(window: WindowView)
    ensures
        bars_address(window, None) == "https://data.alpaca.markets/v2"@
            + "/stocks/bars?symbols="@ + joined(ticker_symbols(), ","@)
            + "&timeframe=1Day&start="@ + window.start + "&end="@ + window.end
            + "&feed=iex&limit=10000&adjustment=split"@,
{
}

/// The snapshots of all followed symbols are asked for at one address of the data
/// service, from the feed of the same exchange as the bars and the trades.
pub proof fn snapshots_are_asked_for_all_symbols()
    ensures
        snapshots_address() == "https://data.alpaca.markets/v2"@
            + "/stocks/snapshots?symbols="@ + joined(ticker_symbols(), ","@) + "&feed=iex"@,
        ALPACA_WS_URL@ == "wss://stream.data.alpaca.markets/v2/iex"@,
{
}

/// The message that authenticates a connection says so, holds the key and the secret
/// as they are, each under its own name, and holds nothing else.
pub proof fn authentication_holds_the_keys(key: Seq<char>, secret: Seq<char>)
    ensures
        auth_json(key, secret).field("action"@) == Some(Json::Text("auth"@)),
        auth_json(key, secret).field("key"@) == Some(Json::Text(key)),
        auth_json(key, secret).field("secret"@) == Some(Json::Text(secret)),
        auth_json(key, secret).members() matches Some(members) && members.len() == 3,
{
    reveal_strlit("action");
    reveal_strlit("key");
    reveal_strlit("secret");
    assert("action"@[0] != "key"@[0]);
    assert("action"@[0] != "secret"@[0]);
    assert("key"@[0] != "secret"@[0]);
    let members = auth_json(key, secret)->Object_0;
    first_member_is_found(members, "action"@, 0);
    first_member_is_found(members, "key"@, 1);
    first_member_is_found(members, "secret"@, 2);
}

/// The message that subscribes says so, and names nothing but trades.
pub proof fn subscription_asks_for_trades()
    ensures
        subscribe_json().field("action"@) == Some(Json::Text("subscribe"@)),
        subscribe_json().members() matches Some(members) && members.len() == 2,
{
    first_member_is_found(subscribe_json()->Object_0, "action"@, 0);
}

/// The previous closes are refreshed four times a day, the returns once.
pub proof fn refreshes_keep_their_pace()
    ensures
        4 * PREV_CLOSE_REFRESH_SECS == 24 * 60 * 60,
        RETURNS_REFRESH_SECS == 24 * 60 * 60,
{
}

} // verus!
