//! The latest quote of each fund: for each one, ask for its latest row, then for
//! its price a day ago and for its first price, and put the answer together. The
//! pass says what to ask next; its caller asks and hands back what was found,
//! nothing where the table could not be read.

use vstd::prelude::*;
use crate::price::{Comparison, Price};
use crate::sequences::views;
use crate::tickers::{ticker_table, tickers, Ticker};

verus! {

/// Seconds in a day.
pub const DAY_SECS: i64 = 86_400;

/// The latest moment that is a day ago, in seconds.
pub fn day_cutoff(now: i64) -> (r: i64)
    requires
        now >= i64::MIN + DAY_SECS,
    ensures
        r == now - DAY_SECS,
{
    now - DAY_SECS
}

/// The latest stored row of a symbol.
#[derive(Clone, Copy, Debug)]
pub struct LatestRow {
    pub ts: i64,
    pub price: Price,
    pub change: Price,
    pub percent_change: Price,
    pub volume: Option<i64>,
}

/// What is shown of a fund. Each return is the percentage of its comparison.
#[derive(Debug)]
pub struct QuoteOut {
    pub symbol: String,
    pub name: String,
    pub price: Price,
    pub change: Price,
    pub percent_change: Price,
    pub volume: Option<i64>,
    pub return_24h_pct: Option<Comparison>,
    pub return_since_tracked_pct: Option<Comparison>,
    pub updated_at: i64,
}

/// What a shown quote holds.
pub struct QuoteView {
    pub symbol: Seq<char>,
    pub name: Seq<char>,
    pub price: Price,
    pub change: Price,
    pub percent_change: Price,
    pub volume: Option<i64>,
    pub return_24h_pct: Option<Comparison>,
    pub return_since_tracked_pct: Option<Comparison>,
    pub updated_at: i64,
}

impl View for QuoteOut {
    type V = QuoteView;

    open spec fn view(&self) -> QuoteView {
        QuoteView {
            symbol: self.symbol@,
            name: self.name@,
            price: self.price,
            change: self.change,
            percent_change: self.percent_change,
            volume: self.volume,
            return_24h_pct: self.return_24h_pct,
            return_since_tracked_pct: self.return_since_tracked_pct,
            updated_at: self.updated_at,
        }
    }
}

/// A price held against an earlier one, where there is an earlier one.
pub open spec fn against(current: Price, earlier: Option<Price>) -> Option<Comparison> {
    match earlier {
        Some(base) => Some(Comparison { current, base }),
        None => None,
    }
}

/// The quote of a fund with the given latest row, price a day ago and first price.
pub open spec fn quote_of(
    ticker: (Seq<char>, Seq<char>),
    latest: LatestRow,
    day_ago: Option<Price>,
    first: Option<Price>,
) -> QuoteView {
    QuoteView {
        symbol: ticker.0,
        name: ticker.1,
        price: latest.price,
        change: latest.change,
        percent_change: latest.percent_change,
        volume: latest.volume,
        return_24h_pct: against(latest.price, day_ago),
        return_since_tracked_pct: against(latest.price, first),
        updated_at: latest.ts,
    }
}

fn compare(current: Price, earlier: Option<Price>) -> (r: Option<Comparison>)
    ensures
        r == against(current, earlier),
{
    match earlier {
        Some(base) => Some(Comparison { current, base }),
        None => None,
    }
}

/// Puts the quote of a fund together.
pub fn quote(
    ticker: Ticker,
    latest: LatestRow,
    day_ago: Option<Price>,
    first: Option<Price>,
) -> (r: QuoteOut)
    ensures
        r@ == quote_of(ticker@, latest, day_ago, first),
        r.symbol@ == ticker.symbol@,
        r.name@ == ticker.name@,
        r.price == latest.price,
        r.change == latest.change,
        r.percent_change == latest.percent_change,
        r.volume == latest.volume,
        r.updated_at == latest.ts,
        r.return_24h_pct is Some <==> day_ago is Some,
        r.return_24h_pct matches Some(over) ==> over.current == latest.price && Some(over.base)
            == day_ago,
        r.return_since_tracked_pct is Some <==> first is Some,
        r.return_since_tracked_pct matches Some(over) ==> over.current == latest.price && Some(
            over.base,
        ) == first,
{
    QuoteOut {
        symbol: ticker.symbol.to_owned(),
        name: ticker.name.to_owned(),
        price: latest.price,
        change: latest.change,
        percent_change: latest.percent_change,
        volume: latest.volume,
        return_24h_pct: compare(latest.price, day_ago),
        return_since_tracked_pct: compare(latest.price, first),
        updated_at: latest.ts,
    }
}

/// Where a pass stands: the index of the next fund in the table, and the quotes of
/// the funds before it.
pub struct FundView {
    pub fund: nat,
    pub out: Seq<QuoteView>,
}

/// What a pass asks for next, and what it knows of the next fund.
pub enum QuotesTaskView {
    /// The fund's latest row.
    Latest(FundView),
    /// The fund's price a day ago.
    DayAgo(FundView, LatestRow),
    /// The fund's first price.
    First(FundView, LatestRow, Option<Price>),
    /// Nothing: these are the quotes.
    Done(Seq<QuoteView>),
}

impl FundView {
    /// The next fund is one of the table.
    pub open spec fn in_table(self) -> bool {
        self.fund < ticker_table().len()
    }

    /// The next fund.
    pub open spec fn ticker(self) -> (Seq<char>, Seq<char>) {
        ticker_table()[self.fund as int]
    }

    /// What to ask for at the next fund.
    pub open spec fn ask(self) -> QuotesTaskView {
        if self.in_table() {
            QuotesTaskView::Latest(self)
        } else {
            QuotesTaskView::Done(self.out)
        }
    }

    /// After the fund's latest row was looked for. A fund without one is left out.
    pub open spec fn after_latest(self, latest: Option<LatestRow>) -> QuotesTaskView {
        match latest {
            Some(row) => QuotesTaskView::DayAgo(self, row),
            None => (FundView { fund: self.fund + 1, out: self.out }).ask(),
        }
    }

    /// After the fund's first price was looked for.
    pub open spec fn after_first(
        self,
        latest: LatestRow,
        day_ago: Option<Price>,
        first: Option<Price>,
    ) -> QuotesTaskView {
        (FundView {
            fund: self.fund + 1,
            out: self.out.push(quote_of(self.ticker(), latest, day_ago, first)),
        }).ask()
    }
}

/// A pass at its start.
pub open spec fn quotes_start() -> FundView {
    FundView { fund: 0, out: Seq::empty() }
}

/// The funds of a pass.
spec fn is_table(funds: Seq<Ticker>) -> bool {
    &&& funds.len() == ticker_table().len()
    &&& forall|i: int| 0 <= i < funds.len() ==> (#[trigger] funds[i])@ == ticker_table()[i]
}

/// A pass that waits for a fund's latest row.
pub struct LatestTask {
    funds: Vec<Ticker>,
    fund: usize,
    out: Vec<QuoteOut>,
}

/// A pass that waits for a fund's price a day ago.
pub struct DayAgoTask {
    funds: Vec<Ticker>,
    fund: usize,
    latest: LatestRow,
    out: Vec<QuoteOut>,
}

/// A pass that waits for a fund's first price.
pub struct FirstTask {
    funds: Vec<Ticker>,
    fund: usize,
    latest: LatestRow,
    day_ago: Option<Price>,
    out: Vec<QuoteOut>,
}

/// What a pass asks for next.
pub enum QuotesTask {
    Latest(LatestTask),
    DayAgo(DayAgoTask),
    First(FirstTask),
    Done(Vec<QuoteOut>),
}

impl View for LatestTask {
    type V = FundView;

    closed spec fn view(&self) -> FundView {
        FundView { fund: self.fund as nat, out: views(self.out@) }
    }
}

impl View for DayAgoTask {
    type V = FundView;

    closed spec fn view(&self) -> FundView {
        FundView { fund: self.fund as nat, out: views(self.out@) }
    }
}

impl View for FirstTask {
    type V = FundView;

    closed spec fn view(&self) -> FundView {
        FundView { fund: self.fund as nat, out: views(self.out@) }
    }
}

impl View for QuotesTask {
    type V = QuotesTaskView;

    open spec fn view(&self) -> QuotesTaskView {
        match self {
            QuotesTask::Latest(task) => QuotesTaskView::Latest(task@),
            QuotesTask::DayAgo(task) => QuotesTaskView::DayAgo(task@, task.latest_row()),
            QuotesTask::First(task) => QuotesTaskView::First(
                task@,
                task.latest_row(),
                task.day_ago_price(),
            ),
            QuotesTask::Done(out) => QuotesTaskView::Done(views(out@)),
        }
    }
}

fn ask(funds: Vec<Ticker>, fund: usize, out: Vec<QuoteOut>) -> (r: QuotesTask)
    requires
        is_table(funds@),
    ensures
        r@ == (FundView { fund: fund as nat, out: views(out@) }).ask(),
{
    if fund < funds.len() {
        QuotesTask::Latest(LatestTask { funds, fund, out })
    } else {
        QuotesTask::Done(out)
    }
}

/// Starts a pass over the followed funds.
pub fn quotes_pass() -> (r: QuotesTask)
    ensures
        r@ == quotes_start().ask(),
{
    let out: Vec<QuoteOut> = Vec::new();
    assert(views(out@) =~= Seq::empty());
    ask(tickers(), 0, out)
}

impl LatestTask {
    #[verifier::type_invariant]
    spec fn in_pass(self) -> bool {
        is_table(self.funds@) && self.fund < self.funds.len()
    }

    /// The symbol whose latest row is looked for.
    pub fn symbol(&self) -> (r: &'static str)
        ensures
            self@.in_table(),
            r@ == self@.ticker().0,
    {
        proof {
            use_type_invariant(self);
            assert(self.funds@[self.fund as int]@ == ticker_table()[self.fund as int]);
        }
        self.funds[self.fund].symbol
    }

    /// Goes on with the latest row, where there is one.
    pub fn found(self, latest: Option<LatestRow>) -> (r: QuotesTask)
        ensures
            self@.in_table(),
            r@ == self@.after_latest(latest),
    {
        proof {
            use_type_invariant(&self);
        }
        let LatestTask { funds, fund, out } = self;
        match latest {
            Some(row) => QuotesTask::DayAgo(DayAgoTask { funds, fund, latest: row, out }),
            None => ask(funds, fund + 1, out),
        }
    }
}

impl DayAgoTask {
    #[verifier::type_invariant]
    spec fn in_pass(self) -> bool {
        is_table(self.funds@) && self.fund < self.funds.len()
    }

    /// The fund's latest row.
    pub closed spec fn latest_row(self) -> LatestRow {
        self.latest
    }

    /// The symbol whose price a day ago is looked for.
    pub fn symbol(&self) -> (r: &'static str)
        ensures
            self@.in_table(),
            r@ == self@.ticker().0,
    {
        proof {
            use_type_invariant(self);
            assert(self.funds@[self.fund as int]@ == ticker_table()[self.fund as int]);
        }
        self.funds[self.fund].symbol
    }

    /// Goes on with the price a day ago, where there is one.
    pub fn found(self, day_ago: Option<Price>) -> (r: QuotesTask)
        ensures
            self@.in_table(),
            r@ == QuotesTaskView::First(self@, self.latest_row(), day_ago),
    {
        proof {
            use_type_invariant(&self);
        }
        let DayAgoTask { funds, fund, latest, out } = self;
        QuotesTask::First(FirstTask { funds, fund, latest, day_ago, out })
    }
}

impl FirstTask {
    #[verifier::type_invariant]
    spec fn in_pass(self) -> bool {
        is_table(self.funds@) && self.fund < self.funds.len()
    }

    /// The fund's latest row.
    pub closed spec fn latest_row(self) -> LatestRow {
        self.latest
    }

    /// The fund's price a day ago.
    pub closed spec fn day_ago_price(self) -> Option<Price> {
        self.day_ago
    }

    /// The symbol whose first price is looked for.
    pub fn symbol(&self) -> (r: &'static str)
        ensures
            self@.in_table(),
            r@ == self@.ticker().0,
    {
        proof {
            use_type_invariant(self);
            assert(self.funds@[self.fund as int]@ == ticker_table()[self.fund as int]);
        }
        self.funds[self.fund].symbol
    }

    /// Goes on with the first price, where there is one.
    pub fn found(self, first: Option<Price>) -> (r: QuotesTask)
        ensures
            self@.in_table(),
            r@ == self@.after_first(self.latest_row(), self.day_ago_price(), first),
    {
        proof {
            use_type_invariant(&self);
            assert(self.funds@[self.fund as int]@ == ticker_table()[self.fund as int]);
        }
        let FirstTask { funds, fund, latest, day_ago, mut out } = self;
        let ghost before = out@;
        let one = quote(funds[fund], latest, day_ago, first);
        let ghost shown = one@;
        out.push(one);
        assert(views(out@) =~= views(before).push(shown));
        ask(funds, fund + 1, out)
    }
}

/// What the quote table holds of each fund of the table.
pub struct Answers {
    pub latest: Seq<Option<LatestRow>>,
    pub day_ago: Seq<Option<Price>>,
    pub first: Seq<Option<Price>>,
}

/// The task that a pass stands at after a task was done.
pub open spec fn step(task: QuotesTaskView, answers: Answers) -> QuotesTaskView {
    match task {
        QuotesTaskView::Latest(at) => at.after_latest(answers.latest[at.fund as int]),
        QuotesTaskView::DayAgo(at, latest) => QuotesTaskView::First(
            at,
            latest,
            answers.day_ago[at.fund as int],
        ),
        QuotesTaskView::First(at, latest, day_ago) => at.after_first(
            latest,
            day_ago,
            answers.first[at.fund as int],
        ),
        QuotesTaskView::Done(out) => task,
    }
}

/// The quotes of the funds from an index on that have a latest row.
pub open spec fn quotes_from(fund: nat, answers: Answers) -> Seq<QuoteView>
    decreases ticker_table().len() - fund,
{
    if fund >= ticker_table().len() {
        Seq::empty()
    } else {
        let rest = quotes_from(fund + 1, answers);
        match answers.latest[fund as int] {
            Some(latest) => seq![
                quote_of(
                    ticker_table()[fund as int],
                    latest,
                    answers.day_ago[fund as int],
                    answers.first[fund as int],
                ),
            ] + rest,
            None => rest,
        }
    }
}

/// The task that a pass stands at after so many steps.
pub open spec fn steps(task: QuotesTaskView, answers: Answers, n: nat) -> QuotesTaskView
    decreases n,
{
    if n == 0 {
        task
    } else {
        steps(step(task, answers), answers, (n - 1) as nat)
    }
}

/// From any fund on, a pass ends, and shows the quote of every fund that has a
/// latest row, and of no other, in the order of the table.
pub proof fn pass_shows_every_fund(at: FundView, answers: Answers) -> (n: nat)
    requires
        at.fund <= ticker_table().len(),
    ensures
        steps(at.ask(), answers, n) == QuotesTaskView::Done(
            at.out + quotes_from(at.fund, answers),
        ),
    decreases ticker_table().len() - at.fund,
{
    if at.fund == ticker_table().len() {
        assert(at.out + quotes_from(at.fund, answers) =~= at.out);
        assert(steps(at.ask(), answers, 0) == at.ask());
        0
    } else {
        let i = at.fund as int;
        let task = at.ask();
        match answers.latest[i] {
            Some(latest) => {
                let one = quote_of(at.ticker(), latest, answers.day_ago[i], answers.first[i]);
                let next = FundView { fund: at.fund + 1, out: at.out.push(one) };
                let n = pass_shows_every_fund(next, answers);
                let second = step(task, answers);
                let third = step(second, answers);
                assert(steps(third, answers, n + 1) == steps(step(third, answers), answers, n));
                assert(steps(second, answers, n + 2) == steps(third, answers, n + 1));
                assert(steps(task, answers, n + 3) == steps(second, answers, n + 2));
                assert(next.out + quotes_from(next.fund, answers) =~= at.out + quotes_from(
                    at.fund,
                    answers,
                ));
                n + 3
            },
            None => {
                let next = FundView { fund: at.fund + 1, out: at.out };
                let n = pass_shows_every_fund(next, answers);
                assert(steps(task, answers, n + 1) == steps(step(task, answers), answers, n));
                n + 1
            },
        }
    }
}

/// A quote shows the latest row as it is stored: its price, its change, its percentage,
/// its volume and its time, of whatever sign and size; it names its fund; and each of
/// its two returns is there exactly where the earlier price is, and holds the latest
/// price against it.
pub proof fn quotes_show_the_latest_row(
    ticker: (Seq<char>, Seq<char>),
    latest: LatestRow,
    day_ago: Option<Price>,
    first: Option<Price>,
)
    ensures
        ({
            let shown = quote_of(ticker, latest, day_ago, first);
            &&& shown.symbol == ticker.0
            &&& shown.name == ticker.1
            &&& shown.price == latest.price
            &&& shown.change == latest.change
            &&& shown.percent_change == latest.percent_change
            &&& shown.volume == latest.volume
            &&& shown.updated_at == latest.ts
            &&& shown.return_24h_pct is Some <==> day_ago is Some
            &&& shown.return_24h_pct matches Some(over) ==> over.current == latest.price && Some(
                over.base,
            ) == day_ago
            &&& shown.return_since_tracked_pct is Some <==> first is Some
            &&& shown.return_since_tracked_pct matches Some(over) ==> over.current == latest.price
                && Some(over.base) == first
        }),
{
}

/// How many of the first funds of the table have a latest row.
pub open spec fn shown_before(answers: Answers, n: nat) -> nat
    decreases n,
{
    if n == 0 {
        0
    } else {
        shown_before(answers, (n - 1) as nat) + if answers.latest[n - 1] is Some {
            1nat
        } else {
            0nat
        }
    }
}

proof fn shown_before_grows(answers: Answers, from: nat, to: nat)
    requires
        from <= to,
    ensures
        shown_before(answers, from) <= shown_before(answers, to),
    decreases to - from,
{
    if from < to {
        shown_before_grows(answers, from, (to - 1) as nat);
    }
}

proof fn quotes_are_counted(fund: nat, answers: Answers)
    requires
        fund <= ticker_table().len(),
    ensures
        quotes_from(fund, answers).len() == shown_before(answers, ticker_table().len())
            - shown_before(answers, fund),
    decreases ticker_table().len() - fund,
{
    if fund < ticker_table().len() {
        quotes_are_counted(fund + 1, answers);
    }
}

proof fn quote_stands_in_place(fund: nat, answers: Answers, k: nat)
    requires
        fund <= k < ticker_table().len(),
        answers.latest[k as int] is Some,
    ensures
        ({
            let i = shown_before(answers, k) - shown_before(answers, fund);
            &&& 0 <= i < quotes_from(fund, answers).len()
            &&& answers.latest[k as int] matches Some(latest) && quotes_from(fund, answers)[i]
                == quote_of(
                ticker_table()[k as int],
                latest,
                answers.day_ago[k as int],
                answers.first[k as int],
            )
        }),
    decreases k - fund,
{
    shown_before_grows(answers, fund, k);
    if fund < k {
        quote_stands_in_place(fund + 1, answers, k);
        shown_before_grows(answers, fund + 1, k);
    }
}

/// A pass ends with one quote for each fund of the table that has a latest row, and no
/// other, in the order of the table. The quote of a fund carries its symbol and name,
/// and the price, change, percentage, volume and time of its latest row unchanged; its
/// two returns hold that price against the price a day ago and against the first
/// price, each exactly where the table has that earlier price.
pub proof fn pass_shows_what_is_stored(answers: Answers, k: nat) -> (n: nat)
    requires
        k < ticker_table().len(),
    ensures
        steps(quotes_start().ask(), answers, n) matches QuotesTaskView::Done(out) && {
            &&& out.len() == shown_before(answers, ticker_table().len())
            &&& match answers.latest[k as int] {
                Some(latest) => {
                    let shown = out[shown_before(answers, k) as int];
                    &&& shown_before(answers, k) < out.len()
                    &&& shown.symbol == ticker_table()[k as int].0
                    &&& shown.name == ticker_table()[k as int].1
                    &&& shown.price == latest.price
                    &&& shown.change == latest.change
                    &&& shown.percent_change == latest.percent_change
                    &&& shown.volume == latest.volume
                    &&& shown.updated_at == latest.ts
                    &&& match answers.day_ago[k as int] {
                        Some(base) => shown.return_24h_pct == Some(
                            Comparison { current: latest.price, base },
                        ),
                        None => shown.return_24h_pct is None,
                    }
                    &&& match answers.first[k as int] {
                        Some(base) => shown.return_since_tracked_pct == Some(
                            Comparison { current: latest.price, base },
                        ),
                        None => shown.return_since_tracked_pct is None,
                    }
                },
                None => true,
            }
        },
{
    let n = pass_shows_every_fund(quotes_start(), answers);
    let out = quotes_from(0, answers);
    assert(Seq::<QuoteView>::empty() + out =~= out);
    quotes_are_counted(0, answers);
    if answers.latest[k as int] is Some {
        quote_stands_in_place(0, answers, k);
    }
    n
}

/// A pass asks about one fund of the table after the other: it starts at the first
/// with no quotes, asks for the price a day ago exactly where the fund has a latest
/// row, which it keeps, and goes otherwise, and once it has a quote more, to the fund
/// behind; it ends behind the last fund with the quotes that it has.
pub proof fn passes_go_fund_by_fund(
    at: FundView,
    latest: Option<LatestRow>,
    row: LatestRow,
    day_ago: Option<Price>,
    first: Option<Price>,
)
    requires
        at.fund < ticker_table().len(),
    ensures
        quotes_start().fund == 0,
        quotes_start().out.len() == 0,
        at.in_table(),
        at.ticker() == ticker_table()[at.fund as int],
        at.ask() == QuotesTaskView::Latest(at),
        (FundView { fund: ticker_table().len(), out: at.out }).ask() == QuotesTaskView::Done(
            at.out,
        ),
        match (latest, at.after_latest(latest)) {
            (Some(found), QuotesTaskView::DayAgo(same, kept)) => same == at && kept == found,
            (None, QuotesTaskView::Latest(next)) => next.fund == at.fund + 1
                < ticker_table().len() && next.out == at.out,
            (None, QuotesTaskView::Done(out)) => at.fund + 1 == ticker_table().len() && out
                == at.out,
            _ => false,
        },
        match at.after_first(row, day_ago, first) {
            QuotesTaskView::Latest(next) => {
                &&& next.fund == at.fund + 1 < ticker_table().len()
                &&& next.out.len() == at.out.len() + 1
                &&& at.out.is_prefix_of(next.out)
            },
            QuotesTaskView::Done(out) => {
                &&& at.fund + 1 == ticker_table().len()
                &&& out.len() == at.out.len() + 1
                &&& at.out.is_prefix_of(out)
            },
            _ => false,
        },
{
}

/// A shown quote stands for its own fields.
pub proof fn quotes_stand_for_their_fields(q: QuoteOut)
    ensures
        q@.symbol == q.symbol@,
        q@.name == q.name@,
        q@.price == q.price,
        q@.change == q.change,
        q@.percent_change == q.percent_change,
        q@.volume == q.volume,
        q@.return_24h_pct == q.return_24h_pct,
        q@.return_since_tracked_pct == q.return_since_tracked_pct,
        q@.updated_at == q.updated_at,
{
}

/// A day has 24 hours of 60 minutes of 60 seconds.
pub proof fn a_day_has_its_hours()
    ensures
        DAY_SECS == 24 * 60 * 60,
{
}

/// A task stands for its own parts; the quotes that a pass ends with stand in their
/// order.
pub proof fn tasks_stand_for_their_parts(task: QuotesTask)
    ensures
        match task {
            QuotesTask::Latest(latest) => task@ == QuotesTaskView::Latest(latest@),
            QuotesTask::DayAgo(day_ago) => task@ == QuotesTaskView::DayAgo(
                day_ago@,
                day_ago.latest_row(),
            ),
            QuotesTask::First(first) => task@ == QuotesTaskView::First(
                first@,
                first.latest_row(),
                first.day_ago_price(),
            ),
            QuotesTask::Done(out) => task@ matches QuotesTaskView::Done(shown) && shown.len()
                == out@.len() && forall|i: int|
                0 <= i < out@.len() ==> #[trigger] shown[i] == out@[i]@,
        },
{
}

} // verus!
