//! Daily bars: reading them page by page, and collecting the closes of each symbol.

use vstd::prelude::*;
use vstd::hash_map::StringHashMap;
use crate::dates::{Window, WindowView};
use crate::json::{
    as_elements, as_members, contents, contents_of, distinct_keys, document, get, members_of,
    parse_document,
    read_price, read_text, Json, Malformed,
};
use crate::price::Price;
use crate::requests::{bars_address, bars_url};
use crate::sequences::views;

verus! {

/// The closes of one symbol, oldest first.
#[derive(Debug)]
pub struct Series {
    pub symbol: String,
    pub closes: Vec<Price>,
}

impl View for Series {
    type V = (Seq<char>, Seq<Price>);

    open spec fn view(&self) -> (Seq<char>, Seq<Price>) {
        (self.symbol@, self.closes@)
    }
}

/// A page of bars: closes by symbol, and the token of the page behind it.
#[derive(Debug)]
pub struct BarsPage {
    pub series: Vec<Series>,
    pub next_page_token: Option<String>,
}

/// What a page of bars holds.
pub struct PageView {
    pub series: Seq<(Seq<char>, Seq<Price>)>,
    pub next_page_token: Option<Seq<char>>,
}

/// The text of an optional string.
pub open spec fn optional_text(text: Option<String>) -> Option<Seq<char>> {
    match text {
        Some(s) => Some(s@),
        None => None,
    }
}

impl View for BarsPage {
    type V = PageView;

    open spec fn view(&self) -> PageView {
        PageView {
            series: views(self.series@),
            next_page_token: optional_text(self.next_page_token),
        }
    }
}

/// The closes of bars, in their order; a bar without one is passed over.
pub open spec fn closes_of(bars: Seq<Json>) -> Seq<Price>
    decreases bars.len(),
{
    if bars.len() == 0 {
        Seq::empty()
    } else {
        let before = closes_of(bars.drop_last());
        match bars.last().price_under("c"@) {
            Some(close) => before.push(close),
            None => before,
        }
    }
}

/// The closes of one symbol's bars; none where they are no array.
pub open spec fn series_of(bars: Json) -> Seq<Price> {
    match bars.elements() {
        Some(items) => closes_of(items),
        None => Seq::empty(),
    }
}

/// The series of all members.
pub open spec fn all_series_of(members: Seq<(Seq<char>, Json)>) -> Seq<(Seq<char>, Seq<Price>)> {
    members.map_values(|m: (Seq<char>, Json)| (m.0, series_of(m.1)))
}

/// No two series are of the same symbol.
pub open spec fn distinct_series(series: Seq<(Seq<char>, Seq<Price>)>) -> bool {
    forall|i: int, j: int|
        0 <= i < series.len() && 0 <= j < series.len() && i != j ==> (#[trigger] series[i]).0 != (
        #[trigger] series[j]).0
}

/// The page that a document spells. One without bars is an empty page.
pub open spec fn page_of(response: Json) -> PageView {
    PageView {
        series: match response.field("bars"@) {
            Some(bars) => match bars.members() {
                Some(members) => all_series_of(members),
                None => Seq::empty(),
            },
            None => Seq::empty(),
        },
        next_page_token: response.text_under("next_page_token"@),
    }
}

/// Reads the closes of bars.
pub fn closes_in(bars: &Vec<serde_json::Value>) -> (r: Vec<Price>)
    ensures
        r@ == closes_of(contents_of(bars@)),
{
    let ghost all = contents_of(bars@);
    let mut closes: Vec<Price> = Vec::new();
    assert(closes@ =~= closes_of(all.take(0)));
    let mut i: usize = 0;
    while i < bars.len()
        invariant
            i <= bars.len(),
            all == contents_of(bars@),
            closes@ == closes_of(all.take(i as int)),
        decreases bars.len() - i,
    {
        proof {
            let next = all.take(i + 1);
            assert(next.drop_last() =~= all.take(i as int));
            assert(next.last() == contents(bars@[i as int]));
        }
        match read_price(&bars[i], "c") {
            Some(close) => {
                closes.push(close);
            },
            None => {},
        }
        i += 1;
    }
    assert(all.take(all.len() as int) =~= all);
    closes
}

/// Reads a page of bars out of a document.
pub fn page_in(response: &serde_json::Value) -> (r: BarsPage)
    ensures
        r@ == page_of(contents(*response)),
        distinct_series(r@.series),
{
    let mut series: Vec<Series> = Vec::new();
    let members = match get(response, "bars") {
        Some(bars) => as_members(bars),
        None => None,
    };
    match members {
        Some(entries) => {
            let ghost all = members_of(entries@);
            let mut i: usize = 0;
            while i < entries.len()
                invariant
                    i <= entries.len(),
                    all == members_of(entries@),
                    distinct_keys(all),
                    views(series@) == all_series_of(all).take(i as int),
                decreases entries.len() - i,
            {
                let (symbol, bars) = entries[i];
                let ghost before = series@;
                let closes = match as_elements(bars) {
                    Some(items) => closes_in(items),
                    None => Vec::new(),
                };
                let ghost one = (symbol@, closes@);
                series.push(Series { symbol: symbol.clone(), closes });
                proof {
                    assert(all[i as int] == (symbol@, contents(*bars)));
                    assert(all_series_of(all)[i as int] == one);
                    assert(views(series@) =~= views(before).push(one));
                    assert(all_series_of(all).take(i + 1) =~= all_series_of(all).take(
                        i as int,
                    ).push(one));
                }
                i += 1;
            }
            assert(all_series_of(all).take(all.len() as int) =~= all_series_of(all));
            assert(distinct_series(all_series_of(all))) by {
                assert forall|i: int, j: int|
                    0 <= i < all.len() && 0 <= j < all.len() && i != j implies (
                #[trigger] all_series_of(all)[i]).0 != (#[trigger] all_series_of(all)[j]).0 by {
                    assert(all[i].0 != all[j].0);
                }
            }
        },
        None => {
            assert(views(series@) =~= Seq::empty());
        },
    }
    let next_page_token = match read_text(response, "next_page_token") {
        Some(token) => Some(token.to_owned()),
        None => None,
    };
    BarsPage { series, next_page_token }
}

/// Reads a page of bars out of the body of an answer.
pub fn read_bars(body: &[u8]) -> (r: Result<BarsPage, Malformed>)
    ensures
        match document(body@) {
            Some(response) => r matches Ok(page) && page@ == page_of(response) && distinct_series(
                page@.series,
            ),
            None => r is Err,
        },
{
    match parse_document(body) {
        Ok(response) => Ok(page_in(&response)),
        Err(cause) => Err(Malformed { cause }),
    }
}

/// The closes that a table holds of a symbol; none where it does not know it.
pub open spec fn closes_for(table: Map<Seq<char>, Seq<Price>>, symbol: Seq<char>) -> Seq<Price> {
    if table.contains_key(symbol) {
        table[symbol]
    } else {
        Seq::empty()
    }
}

/// A table with the closes of each series put behind those that it holds.
pub open spec fn absorbed(
    table: Map<Seq<char>, Seq<Price>>,
    series: Seq<(Seq<char>, Seq<Price>)>,
) -> Map<Seq<char>, Seq<Price>>
    decreases series.len(),
{
    if series.len() == 0 {
        table
    } else {
        let before = absorbed(table, series.drop_last());
        let (symbol, closes) = series.last();
        before.insert(symbol, closes_for(before, symbol) + closes)
    }
}

/// The closes of a symbol in all its series, one series behind the other.
pub open spec fn collected(series: Seq<(Seq<char>, Seq<Price>)>, symbol: Seq<char>) -> Seq<Price>
    decreases series.len(),
{
    if series.len() == 0 {
        Seq::empty()
    } else {
        let before = collected(series.drop_last(), symbol);
        if series.last().0 == symbol {
            before + series.last().1
        } else {
            before
        }
    }
}

/// The closes of each symbol, oldest first.
pub struct CloseTable {
    table: StringHashMap<Vec<Price>>,
}

impl View for CloseTable {
    type V = Map<Seq<char>, Seq<Price>>;

    closed spec fn view(&self) -> Map<Seq<char>, Seq<Price>> {
        self.table@.map_values(|closes: Vec<Price>| closes@)
    }
}

impl CloseTable {
    /// A table without closes.
    pub fn new() -> (r: CloseTable)
        ensures
            r@ == Map::<Seq<char>, Seq<Price>>::empty(),
    {
        let r = CloseTable { table: StringHashMap::new() };
        assert(r@ =~= Map::<Seq<char>, Seq<Price>>::empty());
        r
    }

    /// The closes of a symbol.
    pub fn closes(&self, symbol: &str) -> (r: Vec<Price>)
        ensures
            r@ == closes_for(self@, symbol@),
    {
        let mut out: Vec<Price> = Vec::new();
        match self.table.get(symbol) {
            Some(closes) => {
                let mut i: usize = 0;
                while i < closes.len()
                    invariant
                        i <= closes.len(),
                        out@ == closes@.take(i as int),
                    decreases closes.len() - i,
                {
                    out.push(closes[i]);
                    assert(out@ =~= closes@.take(i + 1));
                    i += 1;
                }
                assert(closes@.take(closes@.len() as int) =~= closes@);
            },
            None => {},
        }
        out
    }

    /// Puts the closes of a page behind those that the table holds.
    pub fn absorb(&mut self, page: BarsPage)
        ensures
            final(self)@ == absorbed(old(self)@, page@.series),
    {
        let ghost all = page@.series;
        let ghost held = self@;
        let mut i: usize = 0;
        while i < page.series.len()
            invariant
                i <= page.series.len(),
                all == views(page.series@),
                self@ == absorbed(held, all.take(i as int)),
            decreases page.series.len() - i,
        {
            let ghost before = self@;
            let mut closes = self.closes(page.series[i].symbol.as_str());
            let more = &page.series[i].closes;
            let ghost earlier = closes@;
            let mut k: usize = 0;
            while k < more.len()
                invariant
                    k <= more.len(),
                    closes@ == earlier + more@.take(k as int),
                decreases more.len() - k,
            {
                closes.push(more[k]);
                assert(closes@ =~= earlier + more@.take(k + 1));
                k += 1;
            }
            assert(more@.take(more@.len() as int) =~= more@);
            let ghost joined = closes@;
            self.table.insert(page.series[i].symbol.clone(), closes);
            proof {
                let next = all.take(i + 1);
                assert(next.drop_last() =~= all.take(i as int));
                assert(next.last() == page.series@[i as int]@);
                assert(self@ =~= before.insert(page.series@[i as int].symbol@, joined));
            }
            i += 1;
        }
        assert(all.take(all.len() as int) =~= all);
    }
}

/// Absorbing one run of series and then another is absorbing the two as one run,
/// so where the pages of an answer are cut makes no difference.
pub proof fn absorbing_in_steps(
    table: Map<Seq<char>, Seq<Price>>,
    first: Seq<(Seq<char>, Seq<Price>)>,
    second: Seq<(Seq<char>, Seq<Price>)>,
)
    ensures
        absorbed(absorbed(table, first), second) == absorbed(table, first + second),
    decreases second.len(),
{
    if second.len() == 0 {
        assert(first + second =~= first);
    } else {
        absorbing_in_steps(table, first, second.drop_last());
        assert((first + second).drop_last() =~= first + second.drop_last());
        assert((first + second).last() == second.last());
    }
}

/// After absorbing, a table holds of each symbol what it held before, followed by
/// the symbol's closes in the series that were absorbed.
pub proof fn absorbing_appends(
    table: Map<Seq<char>, Seq<Price>>,
    series: Seq<(Seq<char>, Seq<Price>)>,
    symbol: Seq<char>,
)
    ensures
        closes_for(absorbed(table, series), symbol) == closes_for(table, symbol) + collected(
            series,
            symbol,
        ),
    decreases series.len(),
{
    if series.len() == 0 {
        assert(closes_for(table, symbol) + collected(series, symbol) =~= closes_for(table, symbol));
    } else {
        absorbing_appends(table, series.drop_last(), symbol);
        let before = collected(series.drop_last(), symbol);
        if series.last().0 == symbol {
            assert(closes_for(table, symbol) + before + series.last().1 =~= closes_for(
                table,
                symbol,
            ) + (before + series.last().1));
        }
    }
}

/// After a page with one series of each symbol, a table holds of a symbol of the
/// page what it held before, followed by that series.
pub proof fn a_page_appends_its_series(
    table: Map<Seq<char>, Seq<Price>>,
    series: Seq<(Seq<char>, Seq<Price>)>,
    i: int,
)
    requires
        distinct_series(series),
        0 <= i < series.len(),
    ensures
        closes_for(absorbed(table, series), series[i].0) == closes_for(table, series[i].0)
            + series[i].1,
{
    absorbing_appends(table, series, series[i].0);
    one_series_is_collected(series, i);
}

proof fn one_series_is_collected(series: Seq<(Seq<char>, Seq<Price>)>, i: int)
    requires
        distinct_series(series),
        0 <= i < series.len(),
    ensures
        collected(series, series[i].0) == series[i].1,
    decreases series.len(),
{
    let before = series.drop_last();
    assert forall|a: int, b: int|
        0 <= a < before.len() && 0 <= b < before.len() && a != b implies (#[trigger] before[a]).0
        != (#[trigger] before[b]).0 by {
        assert(before[a] == series[a] && before[b] == series[b]);
    }
    if i < before.len() {
        one_series_is_collected(before, i);
        assert(before[i] == series[i]);
        assert(series[series.len() - 1].0 != series[i].0);
    } else {
        assert forall|a: int| 0 <= a < before.len() implies (#[trigger] before[a]).0
            != series[i].0 by {
            assert(before[a] == series[a]);
        }
        nothing_is_collected(before, series[i].0);
        assert(Seq::<Price>::empty() + series[i].1 =~= series[i].1);
    }
}

proof fn nothing_is_collected(series: Seq<(Seq<char>, Seq<Price>)>, symbol: Seq<char>)
    requires
        forall|a: int| 0 <= a < series.len() ==> (#[trigger] series[a]).0 != symbol,
    ensures
        collected(series, symbol) == Seq::<Price>::empty(),
    decreases series.len(),
{
    if series.len() > 0 {
        let before = series.drop_last();
        assert forall|a: int| 0 <= a < before.len() implies (#[trigger] before[a]).0 != symbol by {
            assert(before[a] == series[a]);
        }
        nothing_is_collected(before, symbol);
        assert(series[series.len() - 1].0 != symbol);
    }
}

/// Where the reading of a window's bars stands: the window, the closes so far, and
/// the token of the page to ask for, which the first page has none of.
pub struct FetchView {
    pub window: WindowView,
    pub table: Map<Seq<char>, Seq<Price>>,
    pub page_token: Option<Seq<char>>,
}

/// What the reading of a window's bars asks for next.
pub enum BarsTaskView {
    /// A page of bars.
    Fetch(FetchView),
    /// Nothing: these are the closes.
    Done(Map<Seq<char>, Seq<Price>>),
}

impl FetchView {
    /// The address of the page to ask for.
    pub open spec fn address(self) -> Seq<char> {
        bars_address(self.window, self.page_token)
    }

    /// After a page came: the next one where it names one, the end where it does not.
    pub open spec fn after_page(self, page: PageView) -> BarsTaskView {
        let table = absorbed(self.table, page.series);
        match page.next_page_token {
            Some(token) => BarsTaskView::Fetch(
                FetchView { window: self.window, table, page_token: Some(token) },
            ),
            None => BarsTaskView::Done(table),
        }
    }
}

/// A reading that waits for a page.
pub struct FetchTask {
    window: Window,
    table: CloseTable,
    page_token: Option<String>,
}

/// What the reading of a window's bars asks for next.
pub enum BarsTask {
    Fetch(FetchTask),
    Done(CloseTable),
}

impl View for FetchTask {
    type V = FetchView;

    closed spec fn view(&self) -> FetchView {
        FetchView {
            window: self.window@,
            table: self.table@,
            page_token: optional_text(self.page_token),
        }
    }
}

impl View for BarsTask {
    type V = BarsTaskView;

    open spec fn view(&self) -> BarsTaskView {
        match self {
            BarsTask::Fetch(task) => BarsTaskView::Fetch(task@),
            BarsTask::Done(table) => BarsTaskView::Done(table@),
        }
    }
}

/// A reading at its start.
pub open spec fn fetch_start(window: WindowView) -> FetchView {
    FetchView { window, table: Map::empty(), page_token: None }
}

impl FetchTask {
    /// Starts to read the bars of a window.
    pub fn new(window: Window) -> (r: FetchTask)
        ensures
            r@ == fetch_start(window@),
    {
        FetchTask { window, table: CloseTable::new(), page_token: None }
    }

    /// The address of the page to ask for.
    pub fn url(&self) -> (r: String)
        ensures
            r@ == self@.address(),
    {
        bars_url(&self.window, &self.page_token)
    }

    /// Goes on with a page.
    pub fn turned(self, page: BarsPage) -> (r: BarsTask)
        ensures
            r@ == self@.after_page(page@),
    {
        let FetchTask { window, mut table, page_token: _ } = self;
        let next = match &page.next_page_token {
            Some(token) => Some(token.clone()),
            None => None,
        };
        table.absorb(page);
        match next {
            Some(token) => BarsTask::Fetch(FetchTask { window, table, page_token: Some(token) }),
            None => BarsTask::Done(table),
        }
    }

    /// Goes on with the body of the answer to a request for the page.
    pub fn fetched(self, body: &[u8]) -> (r: Result<BarsTask, Malformed>)
        ensures
            match document(body@) {
                Some(response) => r matches Ok(task) && task@ == self@.after_page(
                    page_of(response),
                ),
                None => r is Err,
            },
    {
        match read_bars(body) {
            Ok(page) => Ok(self.turned(page)),
            Err(e) => Err(e),
        }
    }
}

/// What a reading asks for after the given pages.
pub open spec fn read_pages(task: BarsTaskView, pages: Seq<PageView>) -> BarsTaskView
    decreases pages.len(),
{
    if pages.len() == 0 {
        task
    } else {
        match read_pages(task, pages.drop_last()) {
            BarsTaskView::Fetch(fetch) => fetch.after_page(pages.last()),
            BarsTaskView::Done(table) => BarsTaskView::Done(table),
        }
    }
}

/// The series of all pages, one page behind the other.
pub open spec fn series_of_pages(pages: Seq<PageView>) -> Seq<(Seq<char>, Seq<Price>)>
    decreases pages.len(),
{
    if pages.len() == 0 {
        Seq::empty()
    } else {
        series_of_pages(pages.drop_last()) + pages.last().series
    }
}

/// While pages name further pages, a reading goes on, asks for the page that the
/// last one named, and holds the series of all of them.
proof fn reading_goes_on(window: WindowView, pages: Seq<PageView>)
    requires
        forall|i: int| 0 <= i < pages.len() ==> (#[trigger] pages[i]).next_page_token is Some,
    ensures
        read_pages(BarsTaskView::Fetch(fetch_start(window)), pages) == BarsTaskView::Fetch(
            FetchView {
                window,
                table: absorbed(Map::empty(), series_of_pages(pages)),
                page_token: if pages.len() == 0 {
                    None
                } else {
                    pages.last().next_page_token
                },
            },
        ),
    decreases pages.len(),
{
    if pages.len() > 0 {
        let earlier = pages.drop_last();
        assert forall|i: int| 0 <= i < earlier.len() implies (
        #[trigger] earlier[i]).next_page_token is Some by {
            assert(earlier[i] == pages[i]);
        }
        reading_goes_on(window, earlier);
        assert(pages[pages.len() - 1].next_page_token is Some);
        absorbing_in_steps(Map::empty(), series_of_pages(earlier), pages.last().series);
    }
}

/// A reading asks for a further page exactly while the last one names one, and
/// misses no page: in the end it holds, of every symbol, its closes on all pages,
/// in order.
pub proof fn reading_collects_every_page(
    window: WindowView,
    pages: Seq<PageView>,
    symbol: Seq<char>,
)
    requires
        pages.len() > 0,
        forall|i: int|
            0 <= i < pages.len() - 1 ==> (#[trigger] pages[i]).next_page_token is Some,
        pages.last().next_page_token is None,
    ensures
        read_pages(BarsTaskView::Fetch(fetch_start(window)), pages) matches BarsTaskView::Done(table)
            && closes_for(table, symbol) == collected(series_of_pages(pages), symbol),
        forall|n: int|
            0 < n < pages.len() ==> (read_pages(
                BarsTaskView::Fetch(fetch_start(window)),
                #[trigger] pages.take(n),
            ) matches BarsTaskView::Fetch(fetch) && fetch.address() == bars_address(
                window,
                pages[n - 1].next_page_token,
            )),
{
    let start = BarsTaskView::Fetch(fetch_start(window));
    assert forall|n: int| 0 < n < pages.len() implies (read_pages(start, #[trigger] pages.take(n))
        matches BarsTaskView::Fetch(fetch) && fetch.address() == bars_address(
        window,
        pages[n - 1].next_page_token,
    )) by {
        let front = pages.take(n);
        assert forall|i: int| 0 <= i < front.len() implies (#[trigger] front[i]).next_page_token
            is Some by {
            assert(front[i] == pages[i]);
        }
        reading_goes_on(window, front);
    }
    let earlier = pages.drop_last();
    assert forall|i: int| 0 <= i < earlier.len() implies (#[trigger] earlier[i]).next_page_token
        is Some by {
        assert(earlier[i] == pages[i]);
    }
    reading_goes_on(window, earlier);
    absorbing_in_steps(Map::empty(), series_of_pages(earlier), pages.last().series);
    let series = series_of_pages(pages);
    absorbing_appends(Map::empty(), series, symbol);
    assert(Seq::<Price>::empty() + collected(series, symbol) =~= collected(series, symbol));
}

/// The closes of two runs of bars, one behind the other, are those of the one run
/// that they make; and one bar gives the price of the number under `c`, or nothing
/// where there is no number.
pub proof fn closes_of_two_runs(first: Seq<Json>, second: Seq<Json>, bar: Json)
    ensures
        closes_of(first + second) == closes_of(first) + closes_of(second),
        match bar.field("c"@) {
            Some(number) => match number.price() {
                Some(price) => closes_of(seq![bar]) == seq![price],
                None => closes_of(seq![bar]) == Seq::<Price>::empty(),
            },
            None => closes_of(seq![bar]) == Seq::<Price>::empty(),
        },
    decreases second.len(),
{
    if second.len() == 0 {
        assert(first + second =~= first);
        assert(closes_of(first) + Seq::<Price>::empty() =~= closes_of(first));
    } else {
        closes_of_two_runs(first, second.drop_last(), bar);
        assert((first + second).drop_last() =~= first + second.drop_last());
        assert((first + second).last() == second.last());
        assert(closes_of(first + second) =~= closes_of(first) + closes_of(second));
    }
    reveal_with_fuel(closes_of, 2);
    assert(seq![bar].drop_last() =~= Seq::empty());
    match bar.price_under("c"@) {
        Some(price) => {
            assert(closes_of(seq![bar]) =~= seq![price]);
        },
        None => {},
    }
}

/// Where every bar has a number under `c`, there are as many closes as bars, and the
/// close of a bar stands at its place: the price of its number under `c`.
pub proof fn closes_stand_in_place(bars: Seq<Json>, i: int)
    requires
        forall|k: int|
            0 <= k < bars.len() ==> ((#[trigger] bars[k]).field("c"@) matches Some(number)
                && number is Number),
        0 <= i < bars.len(),
    ensures
        closes_of(bars).len() == bars.len(),
        bars[i].field("c"@) matches Some(number) && number.price() == Some(closes_of(bars)[i]),
    decreases bars.len(),
{
    let before = bars.drop_last();
    assert forall|k: int| 0 <= k < before.len() implies ((#[trigger] before[k]).field("c"@)
        matches Some(number) && number is Number) by {
        assert(before[k] == bars[k]);
    }
    assert(bars[bars.len() - 1].field("c"@) is Some);
    reveal_with_fuel(closes_of, 2);
    if before.len() > 0 {
        closes_stand_in_place(
            before,
            if i < before.len() {
                i
            } else {
                0
            },
        );
    }
    if i < before.len() {
        assert(before[i] == bars[i]);
        assert(closes_of(bars)[i] == closes_of(before)[i]);
    }
}

/// Bars that agree under `c` have the same closes, whatever else they hold.
pub proof fn closes_look_under_one_key(bars: Seq<Json>, others: Seq<Json>)
    requires
        bars.len() == others.len(),
        forall|k: int|
            0 <= k < bars.len() ==> (#[trigger] bars[k]).field("c"@) == others[k].field("c"@),
    ensures
        closes_of(bars) == closes_of(others),
    decreases bars.len(),
{
    if bars.len() > 0 {
        let before = bars.drop_last();
        let others_before = others.drop_last();
        assert forall|k: int| 0 <= k < before.len() implies (#[trigger] before[k]).field("c"@)
            == others_before[k].field("c"@) by {
            assert(before[k] == bars[k]);
            assert(others_before[k] == others[k]);
        }
        closes_look_under_one_key(before, others_before);
        assert(bars[bars.len() - 1].field("c"@) == others[bars.len() - 1].field("c"@));
    }
}

/// A page has one series for each member of the object under `bars`, at its place and
/// under its key: the closes of its bars where they are an array, and none otherwise.
/// It has no series where there is no such object.
pub proof fn pages_hold_every_series(response: Json, i: int)
    ensures
        match response.field("bars"@) {
            Some(Json::Object(members)) => {
                &&& page_of(response).series.len() == members.len()
                &&& 0 <= i < members.len() ==> {
                    &&& page_of(response).series[i].0 == members[i].0
                    &&& match members[i].1 {
                        Json::Array(bars) => page_of(response).series[i].1 == closes_of(bars),
                        _ => page_of(response).series[i].1 == Seq::<Price>::empty(),
                    }
                }
            },
            _ => page_of(response).series == Seq::<(Seq<char>, Seq<Price>)>::empty(),
        },
{
}

/// A page names the page behind it exactly where a text stands under
/// `next_page_token`, and by that text, whatever it is.
pub proof fn pages_name_the_page_behind(response: Json)
    ensures
        match response.field("next_page_token"@) {
            Some(Json::Text(token)) => page_of(response).next_page_token == Some(token),
            _ => page_of(response).next_page_token is None,
        },
{
}

/// The bar of a day reaches its symbol's closes: where every bar of a symbol has a
/// number under `c`, absorbing the page puts the prices of those numbers behind the
/// closes that the table held of the symbol, one for each bar, in their order.
pub proof fn bars_reach_the_table(
    table: Map<Seq<char>, Seq<Price>>,
    response: Json,
    members: Seq<(Seq<char>, Json)>,
    m: int,
    bars: Seq<Json>,
    i: int,
)
    requires
        response.field("bars"@) == Some(Json::Object(members)),
        distinct_keys(members),
        0 <= m < members.len(),
        members[m].1 == Json::Array(bars),
        forall|k: int|
            0 <= k < bars.len() ==> ((#[trigger] bars[k]).field("c"@) matches Some(number)
                && number is Number),
        0 <= i < bars.len(),
    ensures
        ({
            let held = closes_for(table, members[m].0);
            let holds = closes_for(absorbed(table, page_of(response).series), members[m].0);
            &&& holds.len() == held.len() + bars.len()
            &&& held.is_prefix_of(holds)
            &&& bars[i].field("c"@) matches Some(number) && number.price() == Some(
                holds[held.len() + i],
            )
        }),
{
    let series = page_of(response).series;
    pages_hold_every_series(response, m);
    assert forall|a: int, b: int|
        0 <= a < series.len() && 0 <= b < series.len() && a != b implies (#[trigger] series[a]).0
        != (#[trigger] series[b]).0 by {
        assert(members[a].0 != members[b].0);
    }
    a_page_appends_its_series(table, series, m);
    closes_stand_in_place(bars, i);
}

/// The closes of a symbol in two runs of series, one behind the other, are those in
/// the one run that they make; and one series gives its closes to its own symbol and
/// nothing to any other.
pub proof fn collecting_in_steps(
    first: Seq<(Seq<char>, Seq<Price>)>,
    second: Seq<(Seq<char>, Seq<Price>)>,
    owner: Seq<char>,
    closes: Seq<Price>,
    symbol: Seq<char>,
)
    ensures
        collected(first + second, symbol) == collected(first, symbol) + collected(second, symbol),
        collected(seq![(owner, closes)], owner) == closes,
        owner != symbol ==> collected(seq![(owner, closes)], symbol) == Seq::<Price>::empty(),
    decreases second.len(),
{
    if second.len() == 0 {
        assert(first + second =~= first);
        assert(collected(first, symbol) + Seq::<Price>::empty() =~= collected(first, symbol));
    } else {
        collecting_in_steps(first, second.drop_last(), owner, closes, symbol);
        assert((first + second).drop_last() =~= first + second.drop_last());
        assert((first + second).last() == second.last());
        assert(collected(first + second, symbol) =~= collected(first, symbol) + collected(
            second,
            symbol,
        ));
    }
    reveal_with_fuel(collected, 2);
    assert(seq![(owner, closes)].drop_last() =~= Seq::empty());
    assert(collected(seq![(owner, closes)], owner) =~= closes);
}

/// Absorbing one series puts its closes behind those of its symbol, of which a table
/// that does not know it holds none, and leaves every other symbol as it was.
pub proof fn absorbing_one_series(
    table: Map<Seq<char>, Seq<Price>>,
    owner: Seq<char>,
    closes: Seq<Price>,
    symbol: Seq<char>,
)
    ensures
        ({
            let after = absorbed(table, seq![(owner, closes)]);
            let held = if table.contains_key(owner) {
                table[owner]
            } else {
                Seq::empty()
            };
            &&& after.contains_key(owner) && after[owner] == held + closes
            &&& symbol != owner ==> {
                &&& after.contains_key(symbol) == table.contains_key(symbol)
                &&& after[symbol] == table[symbol]
            }
        }),
{
    reveal_with_fuel(absorbed, 2);
    assert(seq![(owner, closes)].drop_last() =~= Seq::empty());
}

/// A table gives the closes that it holds of a symbol, all of them and in order, and
/// none of a symbol that it does not know.
pub proof fn tables_give_what_they_hold(table: Map<Seq<char>, Seq<Price>>, symbol: Seq<char>)
    ensures
        table.contains_key(symbol) ==> closes_for(table, symbol) == table[symbol],
        !table.contains_key(symbol) ==> closes_for(table, symbol).len() == 0,
{
}

/// After a page, the reading goes on exactly where the page names another, and then
/// asks for that one, in the same window; and in either case it has put the closes of
/// the page behind those that it held.
pub proof fn reading_turns_the_page(fetch: FetchView, page: PageView, symbol: Seq<char>)
    ensures
        match (page.next_page_token, fetch.after_page(page)) {
            (Some(token), BarsTaskView::Fetch(next)) => {
                &&& next.window == fetch.window
                &&& next.page_token == Some(token)
                &&& closes_for(next.table, symbol) == closes_for(fetch.table, symbol) + collected(
                    page.series,
                    symbol,
                )
            },
            (None, BarsTaskView::Done(table)) => closes_for(table, symbol) == closes_for(
                fetch.table,
                symbol,
            ) + collected(page.series, symbol),
            _ => false,
        },
{
    absorbing_appends(fetch.table, page.series, symbol);
}

/// A reading starts in its window with no closes and at the first page, whose address
/// has no token; every other page's address is that one with its token behind.
pub proof fn reading_starts_at_the_first_page(
    window: WindowView,
    token: Seq<char>,
    table: Map<Seq<char>, Seq<Price>>,
    symbol: Seq<char>,
)
    ensures
        fetch_start(window).window == window,
        fetch_start(window).page_token is None,
        closes_for(fetch_start(window).table, symbol).len() == 0,
        (FetchView { window, table, page_token: Some(token) }).address() == fetch_start(
            window,
        ).address() + "&page_token="@ + token,
{
}

/// The series of two runs of pages, one behind the other, are those of the one run
/// that they make; and one page gives its own.
pub proof fn pages_in_steps(first: Seq<PageView>, second: Seq<PageView>, page: PageView)
    ensures
        series_of_pages(first + second) == series_of_pages(first) + series_of_pages(second),
        series_of_pages(seq![page]) == page.series,
    decreases second.len(),
{
    if second.len() == 0 {
        assert(first + second =~= first);
        assert(series_of_pages(first) + series_of_pages(second) =~= series_of_pages(first));
    } else {
        pages_in_steps(first, second.drop_last(), page);
        assert((first + second).drop_last() =~= first + second.drop_last());
        assert((first + second).last() == second.last());
        assert(series_of_pages(first + second) =~= series_of_pages(first) + series_of_pages(
            second,
        ));
    }
    reveal_with_fuel(series_of_pages, 2);
    assert(seq![page].drop_last() =~= Seq::empty());
    assert(series_of_pages(seq![page]) =~= page.series);
}

/// A page and its series stand for their own fields.
pub proof fn pages_stand_for_their_fields(page: BarsPage, series: Series)
    ensures
        series@.0 == series.symbol@,
        series@.1 == series.closes@,
        page@.series == views(page.series@),
        match page.next_page_token {
            Some(token) => page@.next_page_token == Some(token@),
            None => page@.next_page_token is None,
        },
{
}

/// A task stands for its own parts.
pub proof fn tasks_stand_for_their_parts(task: BarsTask)
    ensures
        match task {
            BarsTask::Fetch(fetch) => task@ == BarsTaskView::Fetch(fetch@),
            BarsTask::Done(table) => task@ == BarsTaskView::Done(table@),
        },
{
}

} // verus!
