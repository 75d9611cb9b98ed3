//! The recorded prices of one fund.

use vstd::prelude::*;
use crate::price::Price;
use crate::tickers::{is_listed, listed};

verus! {

/// The status of an answer that holds what was asked for.
pub const STATUS_OK: u16 = 200;

/// The status of an answer about a symbol that is not followed.
pub const STATUS_NOT_FOUND: u16 = 404;

/// How many recorded prices are shown at most.
pub const HISTORY_LIMIT: usize = 100;

/// A recorded price.
#[derive(Clone, Copy, Debug, PartialEq, Eq, Structural)]
pub struct HistoryPoint {
    pub ts: i64,
    pub price: Price,
}

/// An answer: its status, and the recorded prices, oldest first.
#[derive(Debug)]
pub struct HistoryReply {
    pub status: u16,
    pub points: Vec<HistoryPoint>,
}

/// Answers a request about a symbol that is not followed, and leaves one about a
/// followed symbol to the stored rows.
pub fn refuse_unlisted(symbol: &str) -> (r: Option<HistoryReply>)
    ensures
        listed(symbol@) ==> r is None,
        !listed(symbol@) ==> {
            &&& r matches Some(reply)
            &&& reply.status == STATUS_NOT_FOUND
            &&& reply.points@ == Seq::<HistoryPoint>::empty()
        },
{
    if is_listed(symbol) {
        None
    } else {
        Some(HistoryReply { status: STATUS_NOT_FOUND, points: Vec::new() })
    }
}

/// Answers a request about a followed symbol with its latest stored rows, which
/// are given newest first. Rows that could not be read count as none.
pub fn history_reply(newest_first: Option<Vec<HistoryPoint>>) -> (r: HistoryReply)
    ensures
        r.status == STATUS_OK,
        r.points@ == (match newest_first {
            Some(rows) => rows@.reverse(),
            None => Seq::empty(),
        }),
        newest_first matches Some(rows) ==> r.points@.len() == rows@.len() && forall|i: int|
            0 <= i < rows@.len() ==> #[trigger] r.points@[i] == rows@[rows@.len() - 1 - i],
        newest_first is None ==> r.points@.len() == 0,
{
    let mut points: Vec<HistoryPoint> = Vec::new();
    match newest_first {
        Some(rows) => {
            let mut left: usize = rows.len();
            while left > 0
                invariant
                    left <= rows@.len(),
                    points@ == rows@.reverse().take(rows@.len() - left),
                decreases left,
            {
                left -= 1;
                points.push(rows[left]);
                assert(points@ =~= rows@.reverse().take(rows@.len() - left));
            }
            assert(rows@.reverse().take(rows@.len() as int) =~= rows@.reverse());
        },
        None => {},
    }
    HistoryReply { status: STATUS_OK, points }
}

/// Rows that come newest first are shown oldest first.
pub proof fn history_is_chronological(newest_first: Seq<HistoryPoint>)
    requires
        forall|i: int, j: int|
            0 <= i <= j < newest_first.len() ==> newest_first[i].ts >= newest_first[j].ts,
    ensures
        forall|i: int, j: int|
            0 <= i <= j < newest_first.len() ==> newest_first.reverse()[i].ts
                <= newest_first.reverse()[j].ts,
{
}

/// The latest rows, newest first, of a symbol whose rows are given oldest first.
pub open spec fn latest_rows(rows: Seq<HistoryPoint>) -> Seq<HistoryPoint> {
    if rows.len() <= HISTORY_LIMIT {
        rows.reverse()
    } else {
        rows.reverse().take(HISTORY_LIMIT as int)
    }
}

/// The latest rows, newest first, after a newer one was stored.
pub open spec fn with_newer(before: Seq<HistoryPoint>, point: HistoryPoint) -> Seq<HistoryPoint> {
    seq![point] + if before.len() < HISTORY_LIMIT {
        before
    } else {
        before.take(HISTORY_LIMIT - 1)
    }
}

/// A list of prices, oldest first, with one put behind it, and without its oldest
/// where it was full.
pub open spec fn moved_on(list: Seq<HistoryPoint>, point: HistoryPoint) -> Seq<HistoryPoint> {
    if list.len() < HISTORY_LIMIT {
        list.push(point)
    } else {
        list.drop_first().push(point)
    }
}

/// A new row is shown at the end of the list, which otherwise stays as it was, but
/// for its oldest price where it was full.
pub proof fn a_newer_row_is_shown_last(before: Seq<HistoryPoint>, point: HistoryPoint)
    requires
        before.len() <= HISTORY_LIMIT,
    ensures
        with_newer(before, point).reverse() == moved_on(before.reverse(), point),
{
    assert(with_newer(before, point).reverse() =~= moved_on(before.reverse(), point));
}

/// Storing a row that is newer than all others of its symbol puts it in front of
/// the latest rows, and so at the end of the list that is shown of them; the list
/// holds no more than its limit.
pub proof fn storing_moves_the_list_on(rows: Seq<HistoryPoint>, point: HistoryPoint)
    ensures
        latest_rows(rows.push(point)) == with_newer(latest_rows(rows), point),
        latest_rows(rows.push(point)).reverse() == moved_on(latest_rows(rows).reverse(), point),
        latest_rows(rows).len() <= HISTORY_LIMIT,
{
    assert(latest_rows(rows.push(point)) =~= with_newer(latest_rows(rows), point));
    a_newer_row_is_shown_last(latest_rows(rows), point);
}

} // verus!
