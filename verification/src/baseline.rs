//! Previous closes: reading them from snapshots, and keeping them.

use vstd::prelude::*;
use vstd::hash_map::StringHashMap;
use crate::json::{
    as_members, compact, contents, distinct_keys, document, integer_prices_keep_their_sign,
    members_of, parse_document,
    read_integer_at, read_price_at, to_compact, Json, Malformed,
};
use crate::price::Price;
use crate::rows::{snapshot_row, trade_row};
use crate::sequences::views;

verus! {

/// What a snapshot tells of one symbol: the previous close, the price of the
/// last trade and the volume of the day.
#[derive(Debug)]
pub struct Seed {
    pub symbol: String,
    pub close: Price,
    pub price: Option<Price>,
    pub volume: Option<i64>,
}

/// What a seed holds.
pub struct SeedView {
    pub symbol: Seq<char>,
    pub close: Price,
    pub price: Option<Price>,
    pub volume: Option<i64>,
}

impl View for Seed {
    type V = SeedView;

    open spec fn view(&self) -> SeedView {
        SeedView {
            symbol: self.symbol@,
            close: self.close,
            price: self.price,
            volume: self.volume,
        }
    }
}

/// Why the answer to a request for snapshots cannot be used.
#[derive(Debug)]
pub enum ResponseError {
    /// The answer is no JSON document.
    Malformed(Malformed),
    /// The answer is a document of another kind; the text says which.
    Unexpected(String),
}

/// The seed of a symbol's snapshot. A snapshot without a previous close gives none.
pub open spec fn seed_of(symbol: Seq<char>, snapshot: Json) -> Option<SeedView> {
    match snapshot.price_at("prevDailyBar"@, "c"@) {
        Some(close) => Some(
            SeedView {
                symbol,
                close,
                price: snapshot.price_at("latestTrade"@, "p"@),
                volume: snapshot.integer_at("dailyBar"@, "v"@),
            },
        ),
        None => None,
    }
}

/// The seeds of all snapshots, in their order.
pub open spec fn seeds_of(snapshots: Seq<(Seq<char>, Json)>) -> Seq<SeedView>
    decreases snapshots.len(),
{
    if snapshots.len() == 0 {
        Seq::empty()
    } else {
        let before = seeds_of(snapshots.drop_last());
        match seed_of(snapshots.last().0, snapshots.last().1) {
            Some(seed) => before.push(seed),
            None => before,
        }
    }
}

/// No two seeds are of the same symbol.
pub open spec fn distinct_symbols(seeds: Seq<SeedView>) -> bool {
    forall|i: int, j: int|
        0 <= i < seeds.len() && 0 <= j < seeds.len() && i != j ==> (#[trigger] seeds[i]).symbol
            != (#[trigger] seeds[j]).symbol
}

/// Reads the seed of one snapshot.
pub fn seed_in(symbol: &str, snapshot: &serde_json::Value) -> (r: Option<Seed>)
    ensures
        seed_of(symbol@, contents(*snapshot)) == (match r {
            Some(seed) => Some(seed@),
            None => None,
        }),
        r matches Some(seed) ==> seed.symbol@ == symbol@ && (contents(*snapshot).field(
            "prevDailyBar"@,
        ) matches Some(bar) && bar.field("c"@) matches Some(number) && number.price() == Some(
            seed.close,
        )),
{
    match read_price_at(snapshot, "prevDailyBar", "c") {
        Some(close) => Some(
            Seed {
                symbol: symbol.to_owned(),
                close,
                price: read_price_at(snapshot, "latestTrade", "p"),
                volume: read_integer_at(snapshot, "dailyBar", "v"),
            },
        ),
        None => None,
    }
}

/// Reads the seeds of a document that maps symbols to snapshots.
pub fn seeds_in(response: &serde_json::Value) -> (r: Result<Vec<Seed>, ResponseError>)
    ensures
        match contents(*response).members() {
            Some(snapshots) => {
                &&& r matches Ok(seeds)
                &&& views(seeds@) == seeds_of(snapshots)
                &&& distinct_keys(snapshots)
                &&& distinct_symbols(views(seeds@))
            },
            None => {
                &&& r matches Err(ResponseError::Unexpected(text))
                &&& text@ == "unexpected snapshots response: "@ + compact(contents(*response))
            },
        },
{
    match as_members(response) {
        Some(entries) => {
            let ghost all = members_of(entries@);
            let mut seeds: Vec<Seed> = Vec::new();
            assert(views(seeds@) =~= seeds_of(all.take(0)));
            let mut i: usize = 0;
            while i < entries.len()
                invariant
                    i <= entries.len(),
                    all == members_of(entries@),
                    views(seeds@) == seeds_of(all.take(i as int)),
                decreases entries.len() - i,
            {
                let (symbol, snapshot) = entries[i];
                let ghost before = seeds@;
                let found = seed_in(symbol.as_str(), snapshot);
                proof {
                    let next = all.take(i + 1);
                    assert(next.drop_last() =~= all.take(i as int));
                    assert(next.last() == (symbol@, contents(*snapshot)));
                }
                match found {
                    Some(seed) => {
                        seeds.push(seed);
                        assert(views(seeds@) =~= views(before).push(seed@));
                    },
                    None => {},
                }
                i += 1;
            }
            proof {
                assert(all.take(all.len() as int) =~= all);
                seeds_are_distinct(all);
            }
            Ok(seeds)
        },
        None => {
            let mut text = "unexpected snapshots response: ".to_owned();
            text.append(to_compact(response).as_str());
            Err(ResponseError::Unexpected(text))
        },
    }
}

/// Reads the seeds out of the body of an answer to a request for snapshots.
pub fn read_snapshots(body: &[u8]) -> (r: Result<Vec<Seed>, ResponseError>)
    ensures
        match document(body@) {
            Some(response) => match response.members() {
                Some(snapshots) => {
                    &&& r matches Ok(seeds)
                    &&& views(seeds@) == seeds_of(snapshots)
                    &&& distinct_keys(snapshots)
                    &&& distinct_symbols(views(seeds@))
                },
                None => {
                    &&& r matches Err(ResponseError::Unexpected(text))
                    &&& text@ == "unexpected snapshots response: "@ + compact(response)
                },
            },
            None => r matches Err(ResponseError::Malformed(_)),
        },
{
    match parse_document(body) {
        Ok(response) => seeds_in(&response),
        Err(cause) => Err(ResponseError::Malformed(Malformed { cause })),
    }
}

/// Every seed comes from a snapshot of its symbol.
proof fn seed_has_snapshot(snapshots: Seq<(Seq<char>, Json)>, i: int) -> (k: int)
    requires
        0 <= i < seeds_of(snapshots).len(),
    ensures
        0 <= k < snapshots.len(),
        seed_of(snapshots[k].0, snapshots[k].1) == Some(seeds_of(snapshots)[i]),
    decreases snapshots.len(),
{
    let before = seeds_of(snapshots.drop_last());
    if i < before.len() {
        let k = seed_has_snapshot(snapshots.drop_last(), i);
        assert(snapshots.drop_last()[k] == snapshots[k]);
        k
    } else {
        snapshots.len() - 1
    }
}

/// Where each symbol has one snapshot, each symbol has at most one seed.
pub proof fn seeds_are_distinct(snapshots: Seq<(Seq<char>, Json)>)
    requires
        distinct_keys(snapshots),
    ensures
        distinct_symbols(seeds_of(snapshots)),
    decreases snapshots.len(),
{
    if snapshots.len() > 0 {
        let earlier = snapshots.drop_last();
        assert(distinct_keys(earlier)) by {
            assert forall|i: int, j: int|
                0 <= i < earlier.len() && 0 <= j < earlier.len() && i != j implies (
            #[trigger] earlier[i]).0 != (#[trigger] earlier[j]).0 by {
                assert(earlier[i] == snapshots[i] && earlier[j] == snapshots[j]);
            }
        }
        seeds_are_distinct(earlier);
        let before = seeds_of(earlier);
        assert forall|i: int| 0 <= i < before.len() implies (#[trigger] before[i]).symbol
            != snapshots.last().0 by {
            let k = seed_has_snapshot(earlier, i);
            assert(earlier[k] == snapshots[k]);
        }
    }
}

/// A previous close that is spelled as an integer is kept with its sign: the rows
/// of the symbol, from its snapshot and from its trades, hold a percentage over it
/// exactly where the integer is positive, so none is taken over a zero.
pub proof fn integer_closes_and_percentages(
    symbol: Seq<char>,
    snapshot: Json,
    close: Json,
    n: int,
    price: Price,
    volume: Option<i64>,
)
    requires
        snapshot.field("prevDailyBar"@) matches Some(bar) && bar.field("c"@) == Some(close),
        close.whole() == Some(n),
    ensures
        seed_of(symbol, snapshot) matches Some(seed) && {
            &&& seed.close.positive() <==> n > 0
            &&& seed.close.zero() <==> n == 0
            &&& snapshot_row(symbol, price, seed.close, volume).percent_change is Some <==> n > 0
            &&& trade_row(symbol, price, Some(seed.close)).percent_change is Some <==> n > 0
        },
{
    integer_prices_keep_their_sign(close, n);
}

/// The closes after those of the seeds are put over the known ones, in order.
pub open spec fn recorded(known: Map<Seq<char>, Price>, seeds: Seq<SeedView>) -> Map<
    Seq<char>,
    Price,
>
    decreases seeds.len(),
{
    if seeds.len() == 0 {
        known
    } else {
        recorded(known, seeds.drop_last()).insert(seeds.last().symbol, seeds.last().close)
    }
}

/// The previous close of each symbol for which one is known.
pub struct PrevCloses {
    closes: StringHashMap<Price>,
}

impl View for PrevCloses {
    type V = Map<Seq<char>, Price>;

    closed spec fn view(&self) -> Map<Seq<char>, Price> {
        self.closes@
    }
}

impl PrevCloses {
    /// No close is known at first.
    pub fn new() -> (r: PrevCloses)
        ensures
            r@ == Map::<Seq<char>, Price>::empty(),
    {
        PrevCloses { closes: StringHashMap::new() }
    }

    /// Whether no close is known.
    pub fn is_empty(&self) -> (r: bool)
        ensures
            r == self@.is_empty(),
    {
        self.closes.is_empty()
    }

    /// The previous close of a symbol.
    pub fn get(&self, symbol: &str) -> (r: Option<Price>)
        ensures
            r == (if self@.contains_key(symbol@) {
                Some(self@[symbol@])
            } else {
                None
            }),
    {
        match self.closes.get(symbol) {
            Some(close) => Some(*close),
            None => None,
        }
    }

    /// Takes over the closes of the seeds.
    pub fn record(&mut self, seeds: &Vec<Seed>)
        ensures
            final(self)@ == recorded(old(self)@, views(seeds@)),
    {
        let ghost all = views(seeds@);
        let ghost known = self@;
        let mut i: usize = 0;
        while i < seeds.len()
            invariant
                i <= seeds.len(),
                all == views(seeds@),
                self@ == recorded(known, all.take(i as int)),
            decreases seeds.len() - i,
        {
            self.closes.insert(seeds[i].symbol.clone(), seeds[i].close);
            proof {
                let next = all.take(i + 1);
                assert(next.drop_last() =~= all.take(i as int));
                assert(next.last() == seeds@[i as int]@);
            }
            i += 1;
        }
        assert(all.take(all.len() as int) =~= all);
    }
}

/// Recording seeds sets the close of each symbol to that of its last seed, and
/// leaves the close of every other symbol as it was.
pub proof fn recorded_closes(known: Map<Seq<char>, Price>, seeds: Seq<SeedView>, symbol: Seq<char>)
    ensures
        (forall|i: int| 0 <= i < seeds.len() ==> (#[trigger] seeds[i]).symbol != symbol) ==> {
            &&& recorded(known, seeds).contains_key(symbol) == known.contains_key(symbol)
            &&& recorded(known, seeds)[symbol] == known[symbol]
        },
        forall|i: int|
            0 <= i < seeds.len() && (#[trigger] seeds[i]).symbol == symbol && (forall|j: int|
                i < j < seeds.len() ==> (#[trigger] seeds[j]).symbol != symbol) ==> {
                &&& recorded(known, seeds).contains_key(symbol)
                &&& recorded(known, seeds)[symbol] == seeds[i].close
            },
    decreases seeds.len(),
{
    if seeds.len() > 0 {
        let before = seeds.drop_last();
        recorded_closes(known, before, symbol);
        assert forall|i: int| 0 <= i < before.len() implies #[trigger] before[i] == seeds[i] by {}
        assert forall|i: int|
            0 <= i < seeds.len() && (#[trigger] seeds[i]).symbol == symbol && (forall|j: int|
                i < j < seeds.len() ==> (#[trigger] seeds[j]).symbol != symbol) implies {
            &&& recorded(known, seeds).contains_key(symbol)
            &&& recorded(known, seeds)[symbol] == seeds[i].close
        } by {
            if i < before.len() {
                assert(seeds[seeds.len() - 1].symbol != symbol);
                assert(before[i].symbol == symbol);
            }
        }
        if forall|i: int| 0 <= i < seeds.len() ==> (#[trigger] seeds[i]).symbol != symbol {
            assert(seeds[seeds.len() - 1].symbol != symbol);
        }
    }
}

/// A snapshot has a seed exactly where a number stands under `c` of its
/// `prevDailyBar`, and the close of the seed is the price of that number, whatever
/// else the snapshot holds.
pub proof fn seeds_hold_the_previous_close(symbol: Seq<char>, snapshot: Json)
    ensures
        match snapshot.field("prevDailyBar"@) {
            Some(bar) => match bar.field("c"@) {
                Some(number) => match number.price() {
                    Some(price) => seed_of(symbol, snapshot) matches Some(seed) && seed.close == price
                        && seed.symbol == symbol,
                    None => seed_of(symbol, snapshot) is None,
                },
                None => seed_of(symbol, snapshot) is None,
            },
            None => seed_of(symbol, snapshot) is None,
        },
{
}

/// The price of a seed is that of the number under `p` of the snapshot's
/// `latestTrade`, and is missing exactly where there is no such number.
pub proof fn seeds_hold_the_latest_trade(symbol: Seq<char>, snapshot: Json, seed: SeedView)
    requires
        seed_of(symbol, snapshot) == Some(seed),
    ensures
        match snapshot.field("latestTrade"@) {
            Some(trade) => match trade.field("p"@) {
                Some(number) => seed.price == number.price(),
                None => seed.price is None,
            },
            None => seed.price is None,
        },
{
}

/// The volume of a seed is the integer under `v` of the snapshot's `dailyBar`, and
/// is missing exactly where there is no such integer.
pub proof fn seeds_hold_the_volume_of_the_day(symbol: Seq<char>, snapshot: Json, seed: SeedView)
    requires
        seed_of(symbol, snapshot) == Some(seed),
    ensures
        match snapshot.field("dailyBar"@) {
            Some(bar) => match bar.field("v"@) {
                Some(number) => seed.volume == number.integer(),
                None => seed.volume is None,
            },
            None => seed.volume is None,
        },
{
}

/// Two snapshots with the same previous day have seeds with the same close, or
/// neither has one: the day so far and the last trade say nothing of it.
pub proof fn closes_come_from_the_previous_day(
    symbol: Seq<char>,
    other_symbol: Seq<char>,
    snapshot: Json,
    other: Json,
)
    requires
        snapshot.field("prevDailyBar"@) == other.field("prevDailyBar"@),
    ensures
        match (seed_of(symbol, snapshot), seed_of(other_symbol, other)) {
            (Some(seed), Some(other_seed)) => seed.close == other_seed.close,
            (None, None) => true,
            _ => false,
        },
{
}

/// The seeds of two runs of snapshots, one behind the other, are those of the one
/// run that they make; and one snapshot gives its seed, or nothing where it has none.
pub proof fn seeds_of_two_runs(
    first: Seq<(Seq<char>, Json)>,
    second: Seq<(Seq<char>, Json)>,
    symbol: Seq<char>,
    snapshot: Json,
)
    ensures
        seeds_of(first + second) == seeds_of(first) + seeds_of(second),
        match seed_of(symbol, snapshot) {
            Some(seed) => seeds_of(seq![(symbol, snapshot)]) == seq![seed],
            None => seeds_of(seq![(symbol, snapshot)]) == Seq::<SeedView>::empty(),
        },
    decreases second.len(),
{
    if second.len() == 0 {
        assert(first + second =~= first);
        assert(seeds_of(first) + Seq::<SeedView>::empty() =~= seeds_of(first));
    } else {
        seeds_of_two_runs(first, second.drop_last(), symbol, snapshot);
        assert((first + second).drop_last() =~= first + second.drop_last());
        assert((first + second).last() == second.last());
        assert(seeds_of(first + second) =~= seeds_of(first) + seeds_of(second));
    }
    reveal_with_fuel(seeds_of, 2);
    assert(seq![(symbol, snapshot)].drop_last() =~= Seq::empty());
    match seed_of(symbol, snapshot) {
        Some(seed) => {
            assert(seeds_of(seq![(symbol, snapshot)]) =~= seq![seed]);
        },
        None => {},
    }
}

/// No snapshot with a previous close is passed over: its symbol has a seed, with the
/// price of the number under `c` of its `prevDailyBar` as its close.
pub proof fn no_close_is_passed_over(
    snapshots: Seq<(Seq<char>, Json)>,
    k: int,
    bar: Json,
    number: Json,
) -> (i: int)
    requires
        0 <= k < snapshots.len(),
        snapshots[k].1.field("prevDailyBar"@) == Some(bar),
        bar.field("c"@) == Some(number),
        number.price() is Some,
    ensures
        0 <= i < seeds_of(snapshots).len(),
        seeds_of(snapshots)[i].symbol == snapshots[k].0,
        Some(seeds_of(snapshots)[i].close) == number.price(),
    decreases snapshots.len(),
{
    let before = snapshots.drop_last();
    seeds_hold_the_previous_close(snapshots[k].0, snapshots[k].1);
    if k == before.len() {
        seeds_of(before).len() as int
    } else {
        assert(before[k] == snapshots[k]);
        let i = no_close_is_passed_over(before, k, bar, number);
        assert(seeds_of(snapshots)[i] == seeds_of(before)[i]);
        i
    }
}

/// Where every snapshot has a previous close, there are as many seeds as snapshots,
/// and the seed of a snapshot stands at its place, with its symbol and its close.
pub proof fn seeds_stand_in_place(snapshots: Seq<(Seq<char>, Json)>, i: int)
    requires
        forall|k: int|
            0 <= k < snapshots.len() ==> ((#[trigger] snapshots[k]).1.field("prevDailyBar"@)
                matches Some(bar) && bar.field("c"@) matches Some(number) && number is Number),
        0 <= i < snapshots.len(),
    ensures
        seeds_of(snapshots).len() == snapshots.len(),
        seeds_of(snapshots)[i].symbol == snapshots[i].0,
        snapshots[i].1.field("prevDailyBar"@) matches Some(bar) && bar.field("c"@) matches Some(
            number,
        ) && number.price() == Some(seeds_of(snapshots)[i].close),
    decreases snapshots.len(),
{
    let before = snapshots.drop_last();
    assert forall|k: int| 0 <= k < before.len() implies ((#[trigger] before[k]).1.field(
        "prevDailyBar"@,
    ) matches Some(bar) && bar.field("c"@) matches Some(number) && number is Number) by {
        assert(before[k] == snapshots[k]);
    }
    let last = snapshots[snapshots.len() - 1];
    seeds_hold_the_previous_close(last.0, last.1);
    reveal_with_fuel(seeds_of, 2);
    if before.len() > 0 {
        seeds_stand_in_place(
            before,
            if i < before.len() {
                i
            } else {
                0
            },
        );
    }
    if i < before.len() {
        assert(before[i] == snapshots[i]);
        assert(seeds_of(snapshots)[i] == seeds_of(before)[i]);
    }
}

/// A seed stands for its own fields.
pub proof fn seeds_stand_for_their_fields(seed: Seed)
    ensures
        seed@.symbol == seed.symbol@,
        seed@.close == seed.close,
        seed@.price == seed.price,
        seed@.volume == seed.volume,
{
}

} // verus!
