//! Returns over a week, a month and half a year, and the cache that answers for
//! them.

use vstd::prelude::*;
use crate::bars::{closes_for, closes_of, closes_stand_in_place, CloseTable};
use crate::json::{integer_prices_keep_their_sign, Json};
use crate::price::{Comparison, Price};
use crate::sequences::views;
use crate::tickers::{ticker_table, tickers};

verus! {

/// Trading days in a week.
pub const WEEK_DAYS: usize = 5;

/// Trading days in a month.
pub const MONTH_DAYS: usize = 21;

/// Trading days in half a year.
pub const SIX_MONTH_DAYS: usize = 126;

/// The latest close held against the one so many trading days earlier. There is
/// none where there are not enough closes, or where the earlier one is zero.
pub open spec fn change_over(closes: Seq<Price>, days: nat) -> Option<Comparison> {
    if closes.len() <= days {
        None
    } else {
        let past = closes[closes.len() - 1 - days];
        if past.zero() {
            None
        } else {
            Some(Comparison { current: closes.last(), base: past })
        }
    }
}

/// How many trading days the half-year return reaches back: to the oldest close
/// where there are not enough of them.
pub open spec fn half_year(closes: nat) -> nat {
    if closes > SIX_MONTH_DAYS {
        SIX_MONTH_DAYS as nat
    } else if closes > 0 {
        (closes - 1) as nat
    } else {
        0
    }
}

/// The returns of a fund. Each is the percentage of its comparison.
#[derive(Debug)]
pub struct ReturnsOut {
    pub symbol: String,
    pub name: String,
    pub week_pct: Option<Comparison>,
    pub month_pct: Option<Comparison>,
    pub six_month_pct: Option<Comparison>,
}

/// What a fund's returns hold.
pub struct ReturnsView {
    pub symbol: Seq<char>,
    pub name: Seq<char>,
    pub week_pct: Option<Comparison>,
    pub month_pct: Option<Comparison>,
    pub six_month_pct: Option<Comparison>,
}

impl View for ReturnsOut {
    type V = ReturnsView;

    open spec fn view(&self) -> ReturnsView {
        ReturnsView {
            symbol: self.symbol@,
            name: self.name@,
            week_pct: self.week_pct,
            month_pct: self.month_pct,
            six_month_pct: self.six_month_pct,
        }
    }
}

/// The returns of a fund with the given closes, oldest first.
pub open spec fn returns_of(ticker: (Seq<char>, Seq<char>), closes: Seq<Price>) -> ReturnsView {
    ReturnsView {
        symbol: ticker.0,
        name: ticker.1,
        week_pct: change_over(closes, WEEK_DAYS as nat),
        month_pct: change_over(closes, MONTH_DAYS as nat),
        six_month_pct: change_over(closes, half_year(closes.len())),
    }
}

/// The returns of all followed funds, in their order.
pub open spec fn all_returns_of(table: Map<Seq<char>, Seq<Price>>) -> Seq<ReturnsView> {
    Seq::new(
        ticker_table().len(),
        |i: int| returns_of(ticker_table()[i], closes_for(table, ticker_table()[i].0)),
    )
}

/// Holds the latest close against the one so many trading days earlier.
pub fn pct_change(closes: &[Price], trading_days_ago: usize) -> (r: Option<Comparison>)
    ensures
        r == change_over(closes@, trading_days_ago as nat),
{
    if closes.len() <= trading_days_ago {
        return None;
    }
    let latest = closes[closes.len() - 1];
    let past = closes[closes.len() - 1 - trading_days_ago];
    if past.is_zero() {
        return None;
    }
    Some(Comparison { current: latest, base: past })
}

/// How many trading days the half-year return reaches back.
pub fn six_month_days(closes: usize) -> (r: usize)
    ensures
        r == half_year(closes as nat),
{
    let available = closes.saturating_sub(1);
    if available < SIX_MONTH_DAYS {
        available
    } else {
        SIX_MONTH_DAYS
    }
}

/// The returns of all followed funds.
pub fn returns_rows(table: &CloseTable) -> (r: Vec<ReturnsOut>)
    ensures
        views(r@) == all_returns_of(table@),
{
    let funds = tickers();
    let mut rows: Vec<ReturnsOut> = Vec::new();
    let mut i: usize = 0;
    while i < funds.len()
        invariant
            i <= funds.len(),
            funds@.len() == ticker_table().len(),
            forall|k: int| 0 <= k < funds@.len() ==> (#[trigger] funds@[k])@ == ticker_table()[k],
            rows@.len() == i,
            forall|k: int| 0 <= k < i ==> (#[trigger] rows@[k])@ == all_returns_of(table@)[k],
        decreases funds.len() - i,
    {
        let fund = funds[i];
        assert(fund@ == ticker_table()[i as int]);
        let closes = table.closes(fund.symbol);
        let reach = six_month_days(closes.len());
        rows.push(
            ReturnsOut {
                symbol: fund.symbol.to_owned(),
                name: fund.name.to_owned(),
                week_pct: pct_change(closes.as_slice(), WEEK_DAYS),
                month_pct: pct_change(closes.as_slice(), MONTH_DAYS),
                six_month_pct: pct_change(closes.as_slice(), reach),
            },
        );
        assert(rows@[i as int]@ == all_returns_of(table@)[i as int]);
        i += 1;
    }
    assert(views(rows@) =~= all_returns_of(table@));
    rows
}

/// Every return holds the latest close against one that is not zero; the week's
/// and the month's are there exactly where enough closes are, and the half-year's
/// wherever there is a close, but for a zero to hold it against. With more closes
/// than half a year has, the half-year's reaches back half a year, and otherwise
/// to the oldest close.
pub proof fn returns_reach_back(ticker: (Seq<char>, Seq<char>), closes: Seq<Price>)
    ensures
        ({
            let row = returns_of(ticker, closes);
            let n = closes.len() as int;
            &&& row.week_pct is Some <==> n > WEEK_DAYS && !closes[n - 1 - WEEK_DAYS].zero()
            &&& row.month_pct is Some <==> n > MONTH_DAYS && !closes[n - 1 - MONTH_DAYS].zero()
            &&& row.week_pct matches Some(over) ==> over == (Comparison {
                current: closes[n - 1],
                base: closes[n - 1 - WEEK_DAYS],
            })
            &&& row.month_pct matches Some(over) ==> over == (Comparison {
                current: closes[n - 1],
                base: closes[n - 1 - MONTH_DAYS],
            })
            &&& n > SIX_MONTH_DAYS && !closes[n - 1 - SIX_MONTH_DAYS].zero()
                ==> row.six_month_pct == Some(
                Comparison { current: closes[n - 1], base: closes[n - 1 - SIX_MONTH_DAYS] },
            )
            &&& 0 < n <= SIX_MONTH_DAYS && !closes[0].zero() ==> row.six_month_pct == Some(
                Comparison { current: closes[n - 1], base: closes[0] },
            )
            &&& row.six_month_pct matches Some(over) ==> n > 0 && !over.base.zero() && over.current
                == closes[n - 1]
        }),
{
}

/// No return is taken over a close that is spelled as the integer zero.
pub proof fn an_integer_zero_gives_no_return(closes: Seq<Price>, days: nat, close: Json)
    requires
        days < closes.len(),
        close.whole() == Some(0int),
        close.price() == Some(closes[closes.len() - 1 - days]),
    ensures
        change_over(closes, days) is None,
{
    integer_prices_keep_their_sign(close, 0);
}

/// The latest returns, and when they were computed.
#[derive(Debug)]
pub struct ReturnsCache {
    pub as_of: i64,
    pub rows: Vec<ReturnsOut>,
}

/// The answer to a request for the returns.
#[derive(Debug)]
pub struct ReturnsResponse {
    pub as_of: i64,
    pub rows: Vec<ReturnsOut>,
}

/// What the cache, and an answer out of it, holds.
pub struct CacheView {
    pub as_of: i64,
    pub rows: Seq<ReturnsView>,
}

impl View for ReturnsCache {
    type V = CacheView;

    open spec fn view(&self) -> CacheView {
        CacheView { as_of: self.as_of, rows: views(self.rows@) }
    }
}

impl View for ReturnsResponse {
    type V = CacheView;

    open spec fn view(&self) -> CacheView {
        CacheView { as_of: self.as_of, rows: views(self.rows@) }
    }
}

impl Default for ReturnsCache {
    fn default() -> (r: ReturnsCache)
        ensures
            r@ == (CacheView { as_of: 0, rows: Seq::empty() }),
    {
        let r = ReturnsCache { as_of: 0, rows: Vec::new() };
        assert(r@.rows =~= Seq::empty());
        r
    }
}

impl ReturnsCache {
    /// Computes the returns out of a table of closes and keeps them, as of now.
    pub fn refresh(&mut self, table: &CloseTable, now: i64)
        ensures
            final(self)@ == (CacheView { as_of: now, rows: all_returns_of(table@) }),
    {
        self.as_of = now;
        self.rows = returns_rows(table);
    }

    /// The answer to a request for the returns.
    pub fn response(&self) -> (r: ReturnsResponse)
        ensures
            r@ == self@,
    {
        let mut rows: Vec<ReturnsOut> = Vec::new();
        let mut i: usize = 0;
        while i < self.rows.len()
            invariant
                i <= self.rows.len(),
                rows@.len() == i,
                forall|k: int| 0 <= k < i ==> (#[trigger] rows@[k])@ == self.rows@[k]@,
            decreases self.rows.len() - i,
        {
            let row = &self.rows[i];
            rows.push(
                ReturnsOut {
                    symbol: row.symbol.clone(),
                    name: row.name.clone(),
                    week_pct: row.week_pct,
                    month_pct: row.month_pct,
                    six_month_pct: row.six_month_pct,
                },
            );
            assert(rows@[i as int]@ == self.rows@[i as int]@);
            i += 1;
        }
        assert(views(rows@) =~= views(self.rows@));
        ReturnsResponse { as_of: self.as_of, rows }
    }
}

/// The latest close is held against the one so many places in front of it, for every
/// number of places: there is a comparison exactly where there is such a close and it
/// is zero of neither sign, and it is that of these two closes. Nothing else in the
/// list matters.
pub proof fn changes_hold_two_closes(closes: Seq<Price>, days: nat)
    ensures
        closes.len() <= days ==> change_over(closes, days) is None,
        closes.len() > days ==> {
            let current = closes[closes.len() - 1];
            let base = closes[closes.len() - 1 - days];
            if base.bits == 0 || base.bits == 0x8000_0000_0000_0000 {
                change_over(closes, days) is None
            } else {
                change_over(closes, days) == Some(Comparison { current, base })
            }
        },
{
}

/// Closes in front of the earlier one make no difference.
pub proof fn older_closes_do_not_matter(older: Seq<Price>, closes: Seq<Price>, days: nat)
    requires
        days < closes.len(),
    ensures
        change_over(older + closes, days) == change_over(closes, days),
{
}

/// The half-year return reaches back 126 trading days where there are more closes than
/// that, and otherwise to the oldest close.
pub proof fn half_years_reach_back(closes: nat)
    ensures
        half_year(closes) <= 126,
        closes > 126 ==> half_year(closes) == 126,
        0 < closes <= 126 ==> half_year(closes) + 1 == closes,
        closes == 0 ==> half_year(closes) == 0,
{
}

/// The returns of a fund: the week's holds the latest close against the one 5 trading
/// days earlier, the month's 21, and the half year's 126 or, where there are not so
/// many, the oldest one; each is missing exactly where the list is too short or the
/// earlier close is zero. The returns carry the fund's symbol and name.
pub proof fn returns_hold_their_closes(ticker: (Seq<char>, Seq<char>), closes: Seq<Price>)
    ensures
        ({
            let row = returns_of(ticker, closes);
            let n = closes.len() as int;
            let week = closes[n - 6];
            let month = closes[n - 22];
            let oldest = if n > 126 {
                closes[n - 127]
            } else {
                closes[0]
            };
            &&& row.symbol == ticker.0
            &&& row.name == ticker.1
            &&& row.week_pct == (if n >= 6 && week.bits != 0 && week.bits
                != 0x8000_0000_0000_0000 {
                Some(Comparison { current: closes[n - 1], base: week })
            } else {
                None
            })
            &&& row.month_pct == (if n >= 22 && month.bits != 0 && month.bits
                != 0x8000_0000_0000_0000 {
                Some(Comparison { current: closes[n - 1], base: month })
            } else {
                None
            })
            &&& row.six_month_pct == (if n >= 1 && oldest.bits != 0 && oldest.bits
                != 0x8000_0000_0000_0000 {
                Some(Comparison { current: closes[n - 1], base: oldest })
            } else {
                None
            })
        }),
{
}

/// There are returns for each followed fund, at its place in the table, out of the
/// closes of its own symbol, and of nothing where the table holds none of it.
pub proof fn every_fund_has_returns(table: Map<Seq<char>, Seq<Price>>, i: int)
    requires
        0 <= i < ticker_table().len(),
    ensures
        all_returns_of(table).len() == ticker_table().len(),
        all_returns_of(table)[i].symbol == ticker_table()[i].0,
        all_returns_of(table)[i].name == ticker_table()[i].1,
        table.contains_key(ticker_table()[i].0) ==> all_returns_of(table)[i] == returns_of(
            ticker_table()[i],
            table[ticker_table()[i].0],
        ),
        !table.contains_key(ticker_table()[i].0) ==> {
            &&& all_returns_of(table)[i].week_pct is None
            &&& all_returns_of(table)[i].month_pct is None
            &&& all_returns_of(table)[i].six_month_pct is None
        },
{
}

/// The closes of other symbols make no difference to a fund's returns.
pub proof fn returns_look_at_their_own_closes(
    table: Map<Seq<char>, Seq<Price>>,
    i: int,
    other: Seq<char>,
    closes: Seq<Price>,
)
    requires
        0 <= i < ticker_table().len(),
        other != ticker_table()[i].0,
    ensures
        all_returns_of(table.insert(other, closes))[i] == all_returns_of(table)[i],
{
}

/// The week's return of bars that all have a number under `c` holds the price of the
/// last bar's number against that of the bar five in front of it, where that is not
/// zero.
pub proof fn a_week_of_bars(ticker: (Seq<char>, Seq<char>), bars: Seq<Json>, now: Price, past: Price)
    requires
        forall|k: int|
            0 <= k < bars.len() ==> ((#[trigger] bars[k]).field("c"@) matches Some(number)
                && number is Number),
        bars.len() > 5,
        bars[bars.len() - 1].field("c"@) matches Some(number) && number.price() == Some(now),
        bars[bars.len() - 6].field("c"@) matches Some(number) && number.price() == Some(past),
        past.bits != 0,
        past.bits != 0x8000_0000_0000_0000,
    ensures
        returns_of(ticker, closes_of(bars)).week_pct == Some(
            Comparison { current: now, base: past },
        ),
{
    closes_stand_in_place(bars, bars.len() - 1);
    closes_stand_in_place(bars, bars.len() - 6);
}

/// A fund's returns, the cache and an answer out of it stand for their own fields.
pub proof fn returns_stand_for_their_fields(
    row: ReturnsOut,
    cache: ReturnsCache,
    response: ReturnsResponse,
)
    ensures
        row@.symbol == row.symbol@,
        row@.name == row.name@,
        row@.week_pct == row.week_pct,
        row@.month_pct == row.month_pct,
        row@.six_month_pct == row.six_month_pct,
        cache@.as_of == cache.as_of,
        cache@.rows == views(cache.rows@),
        response@.as_of == response.as_of,
        response@.rows == views(response.rows@),
{
}

} // verus!
