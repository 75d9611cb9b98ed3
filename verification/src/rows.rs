//! The rows that the quote table stores.

use vstd::prelude::*;
use crate::price::{Comparison, Price};

verus! {

/// A row to store. `None` for the change or for its percentage stands for the
/// number zero; otherwise the difference or the percentage of the comparison is
/// stored.
#[derive(Debug)]
pub struct QuoteRow {
    pub symbol: String,
    pub price: Price,
    pub change: Option<Comparison>,
    pub percent_change: Option<Comparison>,
    pub volume: Option<i64>,
}

/// What a row holds.
pub struct RowView {
    pub symbol: Seq<char>,
    pub price: Price,
    pub change: Option<Comparison>,
    pub percent_change: Option<Comparison>,
    pub volume: Option<i64>,
}

impl View for QuoteRow {
    type V = RowView;

    open spec fn view(&self) -> RowView {
        RowView {
            symbol: self.symbol@,
            price: self.price,
            change: self.change,
            percent_change: self.percent_change,
            volume: self.volume,
        }
    }
}

/// The row of the last trade before the stream speaks: its change is taken from
/// the previous close, its percentage only where that close is positive.
pub open spec fn snapshot_row(
    symbol: Seq<char>,
    price: Price,
    close: Price,
    volume: Option<i64>,
) -> RowView {
    let over = Comparison { current: price, base: close };
    RowView {
        symbol,
        price,
        change: Some(over),
        percent_change: if close.positive() {
            Some(over)
        } else {
            None
        },
        volume,
    }
}

/// The row of a trade: change and percentage are taken from the previous close
/// where one is known and positive, and are zero otherwise. A trade carries no
/// volume of the day.
pub open spec fn trade_row(symbol: Seq<char>, price: Price, close: Option<Price>) -> RowView {
    let over = match close {
        Some(base) => if base.positive() {
            Some(Comparison { current: price, base })
        } else {
            None
        },
        None => None,
    };
    RowView { symbol, price, change: over, percent_change: over, volume: None }
}

/// Builds the row of the last trade of a snapshot.
pub fn row_of_snapshot(symbol: &str, price: Price, close: Price, volume: Option<i64>) -> (r: QuoteRow)
    ensures
        r@ == snapshot_row(symbol@, price, close, volume),
        r.symbol@ == symbol@,
        r.price == price,
        r.volume == volume,
        r.change == Some(Comparison { current: price, base: close }),
{
    let over = Comparison { current: price, base: close };
    let percent_change = if close.is_positive() {
        Some(over)
    } else {
        None
    };
    QuoteRow { symbol: symbol.to_owned(), price, change: Some(over), percent_change, volume }
}

/// Builds the row of a trade.
pub fn row_of_trade(symbol: &str, price: Price, close: Option<Price>) -> (r: QuoteRow)
    ensures
        r@ == trade_row(symbol@, price, close),
        r.symbol@ == symbol@,
        r.price == price,
        r.volume is None,
        r.change == r.percent_change,
        r.change matches Some(over) ==> over.current == price && Some(over.base) == close,
{
    let over = match close {
        Some(base) => if base.is_positive() {
            Some(Comparison { current: price, base })
        } else {
            None
        },
        None => None,
    };
    QuoteRow { symbol: symbol.to_owned(), price, change: over, percent_change: over, volume: None }
}

/// No stored percentage is taken over a base that is not positive, and each is
/// the percentage of the change that is stored beside it.
pub open spec fn sound_percentage(row: RowView) -> bool {
    row.percent_change matches Some(over) ==> {
        &&& over.base.positive()
        &&& over.current == row.price
        &&& row.change == Some(over)
    }
}

/// Rows of snapshots and of trades hold sound percentages.
pub proof fn rows_hold_sound_percentages(
    symbol: Seq<char>,
    price: Price,
    close: Price,
    known: Option<Price>,
    volume: Option<i64>,
)
    ensures
        sound_percentage(snapshot_row(symbol, price, close, volume)),
        sound_percentage(trade_row(symbol, price, known)),
{
}

/// Over a positive close, a snapshot and a trade at the same price store the
/// same change and the same percentage.
pub proof fn snapshot_and_trade_agree(
    symbol: Seq<char>,
    price: Price,
    close: Price,
    volume: Option<i64>,
)
    requires
        close.positive(),
    ensures
        snapshot_row(symbol, price, close, volume).change == trade_row(
            symbol,
            price,
            Some(close),
        ).change,
        snapshot_row(symbol, price, close, volume).percent_change == trade_row(
            symbol,
            price,
            Some(close),
        ).percent_change,
{
}

/// A row of a snapshot holds, for every close, whatever its sign, the symbol, the
/// price and the volume that it was made from, and the price against the close as
/// its change; its percentage is there exactly where the close is above zero, and is
/// that of the same two prices.
pub proof fn snapshot_rows_hold_their_parts(
    symbol: Seq<char>,
    price: Price,
    close: Price,
    volume: Option<i64>,
)
    ensures
        ({
            let row = snapshot_row(symbol, price, close, volume);
            let over = Comparison { current: price, base: close };
            &&& row.symbol == symbol
            &&& row.price == price
            &&& row.volume == volume
            &&& row.change == Some(over)
            &&& 0 < close.bits <= 0x7ff0_0000_0000_0000 ==> row.percent_change == Some(over)
            &&& !(0 < close.bits <= 0x7ff0_0000_0000_0000) ==> row.percent_change is None
        }),
{
}

/// A row of a trade holds the symbol and the price of the trade, and no volume; where
/// a close above zero is known, the price against that close is both its change and
/// its percentage, and otherwise it has neither.
pub proof fn trade_rows_hold_their_parts(symbol: Seq<char>, price: Price, close: Option<Price>)
    ensures
        ({
            let row = trade_row(symbol, price, close);
            &&& row.symbol == symbol
            &&& row.price == price
            &&& row.volume is None
            &&& match close {
                Some(base) => if 0 < base.bits <= 0x7ff0_0000_0000_0000 {
                    let over = Some(Comparison { current: price, base });
                    row.change == over && row.percent_change == over
                } else {
                    row.change is None && row.percent_change is None
                },
                None => row.change is None && row.percent_change is None,
            }
        }),
{
}

/// A row stands for its own fields.
pub proof fn rows_stand_for_their_fields(row: QuoteRow)
    ensures
        row@.symbol == row.symbol@,
        row@.price == row.price,
        row@.change == row.change,
        row@.percent_change == row.percent_change,
        row@.volume == row.volume,
{
}

} // verus!
