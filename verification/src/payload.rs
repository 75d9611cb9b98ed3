//! Handling a payload of the stream: for each event, look at the previous closes,
//! and store the row of a trade or report an error. The pass says what to do next;
//! its caller does it and hands back what came of it. A row that cannot be stored
//! holds nothing up.

use vstd::prelude::*;
use crate::baseline::PrevCloses;
use crate::feed::{events_of, react, reaction_to, read_payload, Event, EventView, Reaction};
use crate::feed::ReactionView;
use crate::json::{array_text, Malformed};
use crate::price::{Comparison, Price};
use crate::rows::{QuoteRow, RowView};
use crate::sequences::views;

verus! {

/// Where a pass stands: the events, and which of them is next.
pub struct PayloadView {
    pub events: Seq<EventView>,
    pub next: nat,
}

/// What a pass asks for next.
pub enum PayloadTaskView {
    /// The previous closes, to look at the next event.
    Look(PayloadView),
    /// Store this row of the next event.
    Insert(PayloadView, RowView),
    /// Report this error of the next event.
    Report(PayloadView, Seq<char>),
    /// Nothing.
    Done,
}

impl PayloadView {
    /// What to ask for at the next event.
    pub open spec fn ask(self) -> PayloadTaskView {
        if self.next < self.events.len() {
            PayloadTaskView::Look(self)
        } else {
            PayloadTaskView::Done
        }
    }

    /// What to ask for behind the next event.
    pub open spec fn go_on(self) -> PayloadTaskView {
        (PayloadView { events: self.events, next: self.next + 1 }).ask()
    }

    /// After the previous closes were looked at.
    pub open spec fn after_look(self, closes: Map<Seq<char>, Price>) -> PayloadTaskView {
        match reaction_to(self.events[self.next as int], closes) {
            ReactionView::Record(row) => PayloadTaskView::Insert(self, row),
            ReactionView::Report(text) => PayloadTaskView::Report(self, text),
            ReactionView::Nothing => self.go_on(),
        }
    }
}

/// A pass at its start.
pub open spec fn payload_start(events: Seq<EventView>) -> PayloadView {
    PayloadView { events, next: 0 }
}

/// A pass that waits for the previous closes.
pub struct LookTask {
    events: Vec<Event>,
    next: usize,
}

/// A pass that waits for a row to be stored.
pub struct StoreTask {
    events: Vec<Event>,
    next: usize,
    row: QuoteRow,
}

/// A pass that waits for an error to be reported.
pub struct ReportTask {
    events: Vec<Event>,
    next: usize,
    text: String,
}

/// What a pass asks for next.
pub enum PayloadTask {
    Look(LookTask),
    Insert(StoreTask),
    Report(ReportTask),
    Done,
}

impl View for LookTask {
    type V = PayloadView;

    closed spec fn view(&self) -> PayloadView {
        PayloadView { events: views(self.events@), next: self.next as nat }
    }
}

impl View for StoreTask {
    type V = PayloadView;

    closed spec fn view(&self) -> PayloadView {
        PayloadView { events: views(self.events@), next: self.next as nat }
    }
}

impl View for ReportTask {
    type V = PayloadView;

    closed spec fn view(&self) -> PayloadView {
        PayloadView { events: views(self.events@), next: self.next as nat }
    }
}

impl View for PayloadTask {
    type V = PayloadTaskView;

    open spec fn view(&self) -> PayloadTaskView {
        match self {
            PayloadTask::Look(task) => PayloadTaskView::Look(task@),
            PayloadTask::Insert(task) => PayloadTaskView::Insert(task@, task.due()),
            PayloadTask::Report(task) => PayloadTaskView::Report(task@, task.due()),
            PayloadTask::Done => PayloadTaskView::Done,
        }
    }
}

fn ask(events: Vec<Event>, next: usize) -> (r: PayloadTask)
    ensures
        r@ == (PayloadView { events: views(events@), next: next as nat }).ask(),
{
    if next < events.len() {
        PayloadTask::Look(LookTask { events, next })
    } else {
        PayloadTask::Done
    }
}

/// Starts a pass over events.
pub fn payload_pass(events: Vec<Event>) -> (r: PayloadTask)
    ensures
        r@ == payload_start(views(events@)).ask(),
{
    ask(events, 0)
}

/// Starts to handle the text of a payload. One that spells no array is refused.
pub fn handle_ws_payload(text: &str) -> (r: Result<PayloadTask, Malformed>)
    ensures
        match array_text(text@) {
            Some(elements) => r matches Ok(task) && task@ == payload_start(
                events_of(elements),
            ).ask(),
            None => r is Err,
        },
{
    match read_payload(text) {
        Ok(events) => Ok(payload_pass(events)),
        Err(e) => Err(e),
    }
}

impl LookTask {
    #[verifier::type_invariant]
    spec fn in_pass(self) -> bool {
        self.next < self.events.len()
    }

    /// Goes on with the previous closes that are known now.
    pub fn looked(self, closes: &PrevCloses) -> (r: PayloadTask)
        ensures
            self@.next < self@.events.len(),
            r@ == self@.after_look(closes@),
    {
        proof {
            use_type_invariant(&self);
        }
        let LookTask { events, next } = self;
        match react(&events[next], closes) {
            Reaction::Record(row) => PayloadTask::Insert(StoreTask { events, next, row }),
            Reaction::Report(text) => PayloadTask::Report(ReportTask { events, next, text }),
            Reaction::Nothing => ask(events, next + 1),
        }
    }
}

impl StoreTask {
    #[verifier::type_invariant]
    spec fn in_pass(self) -> bool {
        self.next < self.events.len()
    }

    /// The row to store.
    pub closed spec fn due(self) -> RowView {
        self.row@
    }

    /// The row to store.
    pub fn row(&self) -> (r: &QuoteRow)
        ensures
            r@ == self.due(),
    {
        &self.row
    }

    /// Goes on after the row was stored, or could not be.
    pub fn inserted(self) -> (r: PayloadTask)
        ensures
            self@.next < self@.events.len(),
            r@ == self@.go_on(),
    {
        proof {
            use_type_invariant(&self);
        }
        let StoreTask { events, next, row: _ } = self;
        ask(events, next + 1)
    }
}

impl ReportTask {
    #[verifier::type_invariant]
    spec fn in_pass(self) -> bool {
        self.next < self.events.len()
    }

    /// The error to report.
    pub closed spec fn due(self) -> Seq<char> {
        self.text@
    }

    /// The error to report.
    pub fn text(&self) -> (r: &str)
        ensures
            r@ == self.due(),
    {
        self.text.as_str()
    }

    /// Goes on after the error was reported.
    pub fn reported(self) -> (r: PayloadTask)
        ensures
            self@.next < self@.events.len(),
            r@ == self@.go_on(),
    {
        proof {
            use_type_invariant(&self);
        }
        let ReportTask { events, next, text: _ } = self;
        ask(events, next + 1)
    }
}

/// The rows that a pass adds to the table from a task on, and what it ends with,
/// where the closes that are known at each event, and whether its row can be
/// stored, are given.
pub open spec fn run(
    task: PayloadTaskView,
    closes: Seq<Map<Seq<char>, Price>>,
    stored: Seq<bool>,
) -> (Seq<RowView>, PayloadTaskView)
    decreases
            match task {
                PayloadTaskView::Look(at) => 2 * (at.events.len() - at.next) + 1,
                PayloadTaskView::Insert(at, _) => 2 * (at.events.len() - at.next),
                PayloadTaskView::Report(at, _) => 2 * (at.events.len() - at.next),
                PayloadTaskView::Done => 0,
            },
    when match task {
        PayloadTaskView::Look(at) => at.next < at.events.len(),
        PayloadTaskView::Insert(at, _) => at.next < at.events.len(),
        PayloadTaskView::Report(at, _) => at.next < at.events.len(),
        PayloadTaskView::Done => true,
    }
{
    match task {
        PayloadTaskView::Look(at) => run(at.after_look(closes[at.next as int]), closes, stored),
        PayloadTaskView::Insert(at, row) => {
            let (rows, end) = run(at.go_on(), closes, stored);
            (
                if stored[at.next as int] {
                    seq![row] + rows
                } else {
                    rows
                },
                end,
            )
        },
        PayloadTaskView::Report(at, _) => run(at.go_on(), closes, stored),
        PayloadTaskView::Done => (Seq::empty(), task),
    }
}

/// The rows that one event adds: that of a trade, where it can be stored.
pub open spec fn rows_of_event(
    event: EventView,
    closes: Map<Seq<char>, Price>,
    stored: bool,
) -> Seq<RowView> {
    match reaction_to(event, closes) {
        ReactionView::Record(row) => if stored {
            seq![row]
        } else {
            Seq::empty()
        },
        _ => Seq::empty(),
    }
}

/// The rows that the events of a range add, one event behind the other.
pub open spec fn rows_added(
    events: Seq<EventView>,
    closes: Seq<Map<Seq<char>, Price>>,
    stored: Seq<bool>,
    from: nat,
    to: nat,
) -> Seq<RowView>
    decreases to - from,
{
    if from >= to {
        Seq::empty()
    } else {
        rows_of_event(events[from as int], closes[from as int], stored[from as int]) + rows_added(
            events,
            closes,
            stored,
            from + 1,
            to,
        )
    }
}

/// A pass comes to its end whatever rows cannot be stored, and adds the row of each
/// trade that can be, in the order of the events.
pub proof fn pass_adds_rows_of_trades(
    at: PayloadView,
    closes: Seq<Map<Seq<char>, Price>>,
    stored: Seq<bool>,
)
    requires
        at.next <= at.events.len(),
    ensures
        run(at.ask(), closes, stored) == (
            rows_added(at.events, closes, stored, at.next, at.events.len()),
            PayloadTaskView::Done,
        ),
    decreases at.events.len() - at.next,
{
    if at.next < at.events.len() {
        let i = at.next as int;
        let behind = PayloadView { events: at.events, next: at.next + 1 };
        let rest = rows_added(at.events, closes, stored, at.next + 1, at.events.len());
        pass_adds_rows_of_trades(behind, closes, stored);
        match reaction_to(at.events[i], closes[i]) {
            ReactionView::Record(row) => {
                assert(run(at.ask(), closes, stored) == run(
                    PayloadTaskView::Insert(at, row),
                    closes,
                    stored,
                ));
                assert(Seq::<RowView>::empty() + rest =~= rest);
            },
            ReactionView::Report(text) => {
                assert(run(at.ask(), closes, stored) == run(
                    PayloadTaskView::Report(at, text),
                    closes,
                    stored,
                ));
                assert(Seq::<RowView>::empty() + rest =~= rest);
            },
            ReactionView::Nothing => {
                assert(run(at.ask(), closes, stored) == run(behind.ask(), closes, stored));
                assert(Seq::<RowView>::empty() + rest =~= rest);
            },
        }
    }
}

/// The rows of a range are those of its front, followed by those of its back.
proof fn rows_of_two_ranges(
    events: Seq<EventView>,
    closes: Seq<Map<Seq<char>, Price>>,
    stored: Seq<bool>,
    from: nat,
    mid: nat,
    to: nat,
)
    requires
        from <= mid <= to,
    ensures
        rows_added(events, closes, stored, from, to) == rows_added(
            events,
            closes,
            stored,
            from,
            mid,
        ) + rows_added(events, closes, stored, mid, to),
    decreases mid - from,
{
    if from < mid {
        rows_of_two_ranges(events, closes, stored, from + 1, mid, to);
        let i = from as int;
        assert(rows_of_event(events[i], closes[i], stored[i]) + (rows_added(
            events,
            closes,
            stored,
            from + 1,
            mid,
        ) + rows_added(events, closes, stored, mid, to)) =~= rows_of_event(
            events[i],
            closes[i],
            stored[i],
        ) + rows_added(events, closes, stored, from + 1, mid) + rows_added(
            events,
            closes,
            stored,
            mid,
            to,
        ));
    } else {
        let back = rows_added(events, closes, stored, mid, to);
        assert(Seq::<RowView>::empty() + back =~= back);
    }
}

/// The rows of a range do not depend on what becomes of a row outside it.
proof fn rows_of_other_events(
    events: Seq<EventView>,
    closes: Seq<Map<Seq<char>, Price>>,
    stored: Seq<bool>,
    k: int,
    outcome: bool,
    from: nat,
    to: nat,
)
    requires
        0 <= k < stored.len(),
        k < from || to <= k,
        to <= stored.len(),
    ensures
        rows_added(events, closes, stored.update(k, outcome), from, to) == rows_added(
            events,
            closes,
            stored,
            from,
            to,
        ),
    decreases to - from,
{
    if from < to {
        rows_of_other_events(events, closes, stored, k, outcome, from + 1, to);
        assert(stored.update(k, outcome)[from as int] == stored[from as int]);
    }
}

/// Whether one row of a payload can be stored decides on that row alone: it is
/// added or it is not, and the rows of all events before it and behind it are added
/// as they would be otherwise.
pub proof fn a_failed_insert_loses_its_own_row(
    events: Seq<EventView>,
    closes: Seq<Map<Seq<char>, Price>>,
    stored: Seq<bool>,
    k: int,
    outcome: bool,
)
    requires
        stored.len() == events.len(),
        0 <= k < events.len(),
    ensures
        run(payload_start(events).ask(), closes, stored.update(k, outcome)) == (
            rows_added(events, closes, stored, 0, k as nat) + rows_of_event(
                events[k],
                closes[k],
                outcome,
            ) + rows_added(events, closes, stored, (k + 1) as nat, events.len()),
            PayloadTaskView::Done,
        ),
        rows_of_event(events[k], closes[k], false) == Seq::<RowView>::empty(),
{
    let with = stored.update(k, outcome);
    let n = events.len();
    pass_adds_rows_of_trades(payload_start(events), closes, with);
    rows_of_two_ranges(events, closes, with, 0, k as nat, n);
    rows_of_other_events(events, closes, stored, k, outcome, 0, k as nat);
    rows_of_other_events(events, closes, stored, k, outcome, (k + 1) as nat, n);
    let front = rows_added(events, closes, stored, 0, k as nat);
    let own = rows_of_event(events[k], closes[k], outcome);
    let back = rows_added(events, closes, stored, (k + 1) as nat, n);
    assert(front + (own + back) =~= front + own + back);
}

/// A pass looks at one event after the other: it starts at the first, asks to store a
/// row for a trade and to report a fault, with its own text, asks for neither with any
/// other event, and goes in each case to the event behind, until it is behind the
/// last.
pub proof fn passes_go_event_by_event(at: PayloadView, closes: Map<Seq<char>, Price>)
    requires
        at.next < at.events.len(),
    ensures
        payload_start(at.events).events == at.events,
        payload_start(at.events).next == 0,
        at.ask() == PayloadTaskView::Look(at),
        match at.events[at.next as int] {
            EventView::Trade { symbol, price } => at.after_look(closes)
                matches PayloadTaskView::Insert(same, row) && same == at && row.symbol == symbol
                && row.price == price,
            EventView::Fault { text } => at.after_look(closes) == PayloadTaskView::Report(at, text),
            EventView::Other => at.after_look(closes) == at.go_on(),
        },
        match at.go_on() {
            PayloadTaskView::Look(next) => next.events == at.events && next.next == at.next + 1
                && next.next < at.events.len(),
            PayloadTaskView::Done => at.next + 1 == at.events.len(),
            _ => false,
        },
{
}

/// How many of the first events are trades whose rows can be stored.
pub open spec fn trades_before(events: Seq<EventView>, stored: Seq<bool>, n: nat) -> nat
    decreases n,
{
    if n == 0 {
        0
    } else {
        trades_before(events, stored, (n - 1) as nat) + if events[n - 1] is Trade && stored[n - 1] {
            1nat
        } else {
            0nat
        }
    }
}

proof fn trades_before_grows(events: Seq<EventView>, stored: Seq<bool>, from: nat, to: nat)
    requires
        from <= to,
    ensures
        trades_before(events, stored, from) <= trades_before(events, stored, to),
    decreases to - from,
{
    if from < to {
        trades_before_grows(events, stored, from, (to - 1) as nat);
    }
}

proof fn rows_added_are_counted(
    events: Seq<EventView>,
    closes: Seq<Map<Seq<char>, Price>>,
    stored: Seq<bool>,
    from: nat,
    to: nat,
)
    requires
        from <= to,
    ensures
        rows_added(events, closes, stored, from, to).len() == trades_before(events, stored, to)
            - trades_before(events, stored, from),
    decreases to - from,
{
    if from < to {
        rows_added_are_counted(events, closes, stored, from + 1, to);
        let i = from as int;
        assert(rows_of_event(events[i], closes[i], stored[i]).len() == if events[i] is Trade
            && stored[i] {
            1int
        } else {
            0int
        });
    }
}

proof fn added_row_stands_in_place(
    events: Seq<EventView>,
    closes: Seq<Map<Seq<char>, Price>>,
    stored: Seq<bool>,
    from: nat,
    k: nat,
    to: nat,
)
    requires
        from <= k < to,
        events[k as int] is Trade,
        stored[k as int],
    ensures
        ({
            let i = trades_before(events, stored, k) - trades_before(events, stored, from);
            let rows = rows_added(events, closes, stored, from, to);
            &&& 0 <= i < rows.len()
            &&& reaction_to(events[k as int], closes[k as int]) == ReactionView::Record(rows[i])
        }),
    decreases k - from,
{
    trades_before_grows(events, stored, from, k);
    let f = from as int;
    let own = rows_of_event(events[f], closes[f], stored[f]);
    if from < k {
        added_row_stands_in_place(events, closes, stored, from + 1, k, to);
        trades_before_grows(events, stored, from + 1, k);
        assert(own.len() == if events[f] is Trade && stored[f] {
            1int
        } else {
            0int
        });
    }
}

/// No trade of a payload is lost: a pass comes to its end, and adds one row for each
/// trade that can be stored, and no other, in the order of the events. Each holds the
/// symbol and the price of its trade, and the price against the close that was known
/// of the symbol when its event was looked at, where that is above zero.
pub proof fn no_trade_is_lost(
    events: Seq<EventView>,
    closes: Seq<Map<Seq<char>, Price>>,
    stored: Seq<bool>,
    k: nat,
)
    requires
        k < events.len(),
    ensures
        ({
            let (rows, end) = run(payload_start(events).ask(), closes, stored);
            let known = closes[k as int];
            &&& end is Done
            &&& rows.len() == trades_before(events, stored, events.len())
            &&& match events[k as int] {
                EventView::Trade { symbol, price } => stored[k as int] ==> {
                    let row = rows[trades_before(events, stored, k) as int];
                    let over = if known.contains_key(symbol) && 0 < known[symbol].bits
                        <= 0x7ff0_0000_0000_0000 {
                        Some(Comparison { current: price, base: known[symbol] })
                    } else {
                        None
                    };
                    &&& trades_before(events, stored, k) < rows.len()
                    &&& row.symbol == symbol
                    &&& row.price == price
                    &&& row.volume is None
                    &&& row.change == over
                    &&& row.percent_change == over
                },
                _ => true,
            }
        }),
{
    pass_adds_rows_of_trades(payload_start(events), closes, stored);
    rows_added_are_counted(events, closes, stored, 0, events.len());
    if events[k as int] is Trade && stored[k as int] {
        added_row_stands_in_place(events, closes, stored, 0, k, events.len());
    }
}

/// A task stands for its own parts.
pub proof fn tasks_stand_for_their_parts(task: PayloadTask)
    ensures
        match task {
            PayloadTask::Look(look) => task@ == PayloadTaskView::Look(look@),
            PayloadTask::Insert(store) => task@ == PayloadTaskView::Insert(store@, store.due()),
            PayloadTask::Report(report) => task@ == PayloadTaskView::Report(report@, report.due()),
            PayloadTask::Done => task@ is Done,
        },
{
}

/// A payload without events asks for nothing.
pub proof fn empty_payloads_ask_for_nothing(events: Seq<EventView>)
    ensures
        payload_start(events).ask() is Done <==> events.len() == 0,
{
}

} // verus!
