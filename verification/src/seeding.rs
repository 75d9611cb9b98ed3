//! Refreshing the previous closes and seeding the quote table: take over the closes
//! of all seeds; then, for each seed, ask how many rows its symbol has, and store a
//! row of its last trade where it has none. The pass says what to do next; its
//! caller does it and hands back what came of it.

use vstd::prelude::*;
use crate::baseline::{distinct_symbols, recorded, PrevCloses, Seed, SeedView};
use crate::price::Comparison;
use crate::rows::{row_of_snapshot, snapshot_row, sound_percentage, QuoteRow, RowView};
use crate::sequences::views;

verus! {

/// Where a pass stands: the seeds, which of them is next, and how many rows have
/// been stored.
pub struct PassView {
    pub seeds: Seq<SeedView>,
    pub next: nat,
    pub seeded: nat,
}

/// What a pass asks for next.
pub enum SeedTaskView {
    /// Count the rows of the next seed's symbol.
    Count(PassView),
    /// Store this row for the next seed.
    Insert(PassView, RowView),
    /// Nothing: so many rows were stored, out of so many seeds.
    Done { seeded: nat, symbols: nat },
}

/// Whether an answer to a count means that the symbol has rows. A count that
/// failed counts as none.
pub open spec fn has_rows(rows: Option<i64>) -> bool {
    rows matches Some(n) && n > 0
}

/// The row that a seed puts into the table of a symbol with so many rows.
pub open spec fn due_row(seed: SeedView, rows: Option<i64>) -> Option<RowView> {
    match seed.price {
        Some(price) => if has_rows(rows) {
            None
        } else {
            Some(snapshot_row(seed.symbol, price, seed.close, seed.volume))
        },
        None => None,
    }
}

impl PassView {
    /// What to ask for at the next seed.
    pub open spec fn ask(self) -> SeedTaskView {
        if self.next < self.seeds.len() {
            SeedTaskView::Count(self)
        } else {
            SeedTaskView::Done { seeded: self.seeded, symbols: self.seeds.len() }
        }
    }

    /// The pass behind the next seed, with so many rows more.
    pub open spec fn past(self, stored: nat) -> PassView {
        PassView { seeds: self.seeds, next: self.next + 1, seeded: self.seeded + stored }
    }

    /// After the rows of the next seed's symbol were counted.
    pub open spec fn after_count(self, rows: Option<i64>) -> SeedTaskView {
        match due_row(self.seeds[self.next as int], rows) {
            Some(row) => SeedTaskView::Insert(self, row),
            None => self.past(0).ask(),
        }
    }

    /// After the next seed's row was stored, or was not.
    pub open spec fn after_insert(self, stored: bool) -> SeedTaskView {
        self.past(if stored {
            1
        } else {
            0
        }).ask()
    }
}

/// A pass at its start.
pub open spec fn pass_start(seeds: Seq<SeedView>) -> PassView {
    PassView { seeds, next: 0, seeded: 0 }
}

/// A pass that waits for a count.
pub struct CountTask {
    seeds: Vec<Seed>,
    next: usize,
    seeded: usize,
}

/// A pass that waits for a row to be stored.
pub struct InsertTask {
    seeds: Vec<Seed>,
    next: usize,
    seeded: usize,
    row: QuoteRow,
}

/// What a pass came to.
#[derive(Debug)]
pub struct SeedReport {
    /// How many rows were stored.
    pub seeded: usize,
    /// How many seeds there were.
    pub symbols: usize,
}

/// What a pass asks for next.
pub enum SeedTask {
    Count(CountTask),
    Insert(InsertTask),
    Done(SeedReport),
}

impl View for CountTask {
    type V = PassView;

    closed spec fn view(&self) -> PassView {
        PassView { seeds: views(self.seeds@), next: self.next as nat, seeded: self.seeded as nat }
    }
}

impl View for InsertTask {
    type V = PassView;

    closed spec fn view(&self) -> PassView {
        PassView { seeds: views(self.seeds@), next: self.next as nat, seeded: self.seeded as nat }
    }
}

impl View for SeedTask {
    type V = SeedTaskView;

    open spec fn view(&self) -> SeedTaskView {
        match self {
            SeedTask::Count(task) => SeedTaskView::Count(task@),
            SeedTask::Insert(task) => SeedTaskView::Insert(task@, task.due()),
            SeedTask::Done(report) => SeedTaskView::Done {
                seeded: report.seeded as nat,
                symbols: report.symbols as nat,
            },
        }
    }
}

fn ask(seeds: Vec<Seed>, next: usize, seeded: usize) -> (r: SeedTask)
    requires
        seeded <= next <= seeds.len(),
    ensures
        r@ == (PassView {
            seeds: views(seeds@),
            next: next as nat,
            seeded: seeded as nat,
        }).ask(),
{
    if next < seeds.len() {
        SeedTask::Count(CountTask { seeds, next, seeded })
    } else {
        SeedTask::Done(SeedReport { seeded, symbols: seeds.len() })
    }
}

/// Takes over the closes of the seeds, and starts a pass over them: every close is
/// known before the first question about the table.
pub fn begin_refresh(closes: &mut PrevCloses, seeds: Vec<Seed>) -> (r: SeedTask)
    ensures
        final(closes)@ == recorded(old(closes)@, views(seeds@)),
        r@ == pass_start(views(seeds@)).ask(),
{
    closes.record(&seeds);
    ask(seeds, 0, 0)
}

impl CountTask {
    #[verifier::type_invariant]
    spec fn in_pass(self) -> bool {
        self.seeded <= self.next < self.seeds.len()
    }

    /// The symbol whose rows are to be counted.
    pub fn symbol(&self) -> (r: &str)
        ensures
            self@.next < self@.seeds.len(),
            r@ == self@.seeds[self@.next as int].symbol,
    {
        proof {
            use_type_invariant(self);
        }
        self.seeds[self.next].symbol.as_str()
    }

    /// Goes on with the number of rows that were counted, or without one where
    /// the count failed.
    pub fn counted(self, rows: Option<i64>) -> (r: SeedTask)
        ensures
            self@.next < self@.seeds.len(),
            r@ == self@.after_count(rows),
    {
        proof {
            use_type_invariant(&self);
        }
        let CountTask { seeds, next, seeded } = self;
        let counted = match rows {
            Some(n) => n > 0,
            None => false,
        };
        let price = seeds[next].price;
        match price {
            Some(price) => if counted {
                ask(seeds, next + 1, seeded)
            } else {
                let row = row_of_snapshot(
                    seeds[next].symbol.as_str(),
                    price,
                    seeds[next].close,
                    seeds[next].volume,
                );
                SeedTask::Insert(InsertTask { seeds, next, seeded, row })
            },
            None => ask(seeds, next + 1, seeded),
        }
    }
}

impl InsertTask {
    #[verifier::type_invariant]
    spec fn in_pass(self) -> bool {
        self.seeded <= self.next < self.seeds.len()
    }

    /// The row to store.
    pub closed spec fn due(self) -> RowView {
        self.row@
    }

    /// The row to store.
    pub fn row(&self) -> (r: &QuoteRow)
        ensures
            r@ == self.due(),
    {
        &self.row
    }

    /// Goes on after the row was stored, or could not be.
    pub fn inserted(self, stored: bool) -> (r: SeedTask)
        ensures
            self@.next < self@.seeds.len(),
            r@ == self@.after_insert(stored),
    {
        proof {
            use_type_invariant(&self);
        }
        let InsertTask { seeds, next, seeded, row: _ } = self;
        if stored {
            ask(seeds, next + 1, seeded + 1)
        } else {
            ask(seeds, next + 1, seeded)
        }
    }
}

/// The rows that a pass asks to store from a task on, and what it ends with,
/// where the counts and the outcomes of storing are given for each seed.
pub open spec fn run(task: SeedTaskView, counts: Seq<Option<i64>>, stored: Seq<bool>) -> (
    Seq<RowView>,
    SeedTaskView,
)
    decreases
            match task {
                SeedTaskView::Count(pass) => 2 * (pass.seeds.len() - pass.next) + 1,
                SeedTaskView::Insert(pass, _) => 2 * (pass.seeds.len() - pass.next),
                SeedTaskView::Done { .. } => 0,
            },
    when match task {
        SeedTaskView::Count(pass) => pass.next < pass.seeds.len(),
        SeedTaskView::Insert(pass, _) => pass.next < pass.seeds.len(),
        SeedTaskView::Done { .. } => true,
    }
{
    match task {
        SeedTaskView::Count(pass) => run(
            pass.after_count(counts[pass.next as int]),
            counts,
            stored,
        ),
        SeedTaskView::Insert(pass, row) => {
            let (rows, end) = run(pass.after_insert(stored[pass.next as int]), counts, stored);
            (seq![row] + rows, end)
        },
        SeedTaskView::Done { .. } => (Seq::empty(), task),
    }
}

/// The rows that seeds from an index on put into the table.
pub open spec fn due_rows(seeds: Seq<SeedView>, counts: Seq<Option<i64>>, from: nat) -> Seq<RowView>
    decreases seeds.len() - from,
{
    if from >= seeds.len() {
        Seq::empty()
    } else {
        let rest = due_rows(seeds, counts, from + 1);
        match due_row(seeds[from as int], counts[from as int]) {
            Some(row) => seq![row] + rest,
            None => rest,
        }
    }
}

/// How many of the rows of seeds from an index on can be stored.
pub open spec fn stored_rows(
    seeds: Seq<SeedView>,
    counts: Seq<Option<i64>>,
    stored: Seq<bool>,
    from: nat,
) -> nat
    decreases seeds.len() - from,
{
    if from >= seeds.len() {
        0
    } else {
        let rest = stored_rows(seeds, counts, stored, from + 1);
        if due_row(seeds[from as int], counts[from as int]) is Some && stored[from as int] {
            rest + 1
        } else {
            rest
        }
    }
}

/// A pass stores exactly the rows that are due, in the order of the seeds, goes
/// on where one cannot be stored, and reports how many were.
pub proof fn pass_stores_due_rows(
    pass: PassView,
    counts: Seq<Option<i64>>,
    stored: Seq<bool>,
)
    requires
        pass.next <= pass.seeds.len(),
    ensures
        run(pass.ask(), counts, stored) == (
            due_rows(pass.seeds, counts, pass.next),
            SeedTaskView::Done {
                seeded: pass.seeded + stored_rows(pass.seeds, counts, stored, pass.next),
                symbols: pass.seeds.len(),
            },
        ),
    decreases pass.seeds.len() - pass.next,
{
    if pass.next < pass.seeds.len() {
        let i = pass.next as int;
        let stays = pass.past(0);
        let grows = pass.past(1);
        pass_stores_due_rows(stays, counts, stored);
        pass_stores_due_rows(grows, counts, stored);
        match due_row(pass.seeds[i], counts[i]) {
            Some(row) => {
                assert(run(pass.ask(), counts, stored) == run(
                    SeedTaskView::Insert(pass, row),
                    counts,
                    stored,
                ));
            },
            None => {
                assert(run(pass.ask(), counts, stored) == run(stays.ask(), counts, stored));
            },
        }
    }
}

/// Where every symbol with a last trade has rows already, a pass stores nothing.
pub proof fn tracked_symbols_get_no_rows(
    seeds: Seq<SeedView>,
    counts: Seq<Option<i64>>,
    stored: Seq<bool>,
)
    requires
        forall|i: int|
            0 <= i < seeds.len() ==> has_rows(#[trigger] counts[i]) || seeds[i].price is None,
    ensures
        run(pass_start(seeds).ask(), counts, stored) == (
            Seq::<RowView>::empty(),
            SeedTaskView::Done { seeded: 0, symbols: seeds.len() },
        ),
{
    pass_stores_due_rows(pass_start(seeds), counts, stored);
    nothing_due(seeds, counts, stored, 0);
}

proof fn nothing_due(seeds: Seq<SeedView>, counts: Seq<Option<i64>>, stored: Seq<bool>, from: nat)
    requires
        forall|i: int|
            0 <= i < seeds.len() ==> has_rows(#[trigger] counts[i]) || seeds[i].price is None,
    ensures
        due_rows(seeds, counts, from) == Seq::<RowView>::empty(),
        stored_rows(seeds, counts, stored, from) == 0,
    decreases seeds.len() - from,
{
    if from < seeds.len() {
        nothing_due(seeds, counts, stored, from + 1);
        assert(has_rows(counts[from as int]) || seeds[from as int].price is None);
    }
}

/// Every row that is due is the row of a seed, with the price of its last trade and
/// a sound percentage.
pub proof fn due_rows_come_from_seeds(
    seeds: Seq<SeedView>,
    counts: Seq<Option<i64>>,
    from: nat,
    i: int,
) -> (k: int)
    requires
        0 <= i < due_rows(seeds, counts, from).len(),
    ensures
        from <= k < seeds.len(),
        due_row(seeds[k], counts[k]) == Some(due_rows(seeds, counts, from)[i]),
        due_rows(seeds, counts, from)[i].symbol == seeds[k].symbol,
        Some(due_rows(seeds, counts, from)[i].price) == seeds[k].price,
        sound_percentage(due_rows(seeds, counts, from)[i]),
    decreases seeds.len() - from,
{
    let rest = due_rows(seeds, counts, from + 1);
    match due_row(seeds[from as int], counts[from as int]) {
        Some(row) => if i == 0 {
            from as int
        } else {
            assert(due_rows(seeds, counts, from)[i] == rest[i - 1]);
            due_rows_come_from_seeds(seeds, counts, from + 1, i - 1)
        },
        None => due_rows_come_from_seeds(seeds, counts, from + 1, i),
    }
}

/// Where each symbol has one seed, a pass stores no two rows of a symbol.
pub proof fn no_symbol_is_seeded_twice(seeds: Seq<SeedView>, counts: Seq<Option<i64>>, from: nat)
    requires
        distinct_symbols(seeds),
    ensures
        forall|i: int, j: int|
            0 <= i < j < due_rows(seeds, counts, from).len() ==> (#[trigger] due_rows(
                seeds,
                counts,
                from,
            )[i]).symbol != (#[trigger] due_rows(seeds, counts, from)[j]).symbol,
    decreases seeds.len() - from,
{
    if from < seeds.len() {
        no_symbol_is_seeded_twice(seeds, counts, from + 1);
        let all = due_rows(seeds, counts, from);
        let rest = due_rows(seeds, counts, from + 1);
        match due_row(seeds[from as int], counts[from as int]) {
            Some(row) => {
                assert forall|i: int, j: int| 0 <= i < j < all.len() implies (
                #[trigger] all[i]).symbol != (#[trigger] all[j]).symbol by {
                    let k = due_rows_come_from_seeds(seeds, counts, from + 1, j - 1);
                    assert(all[j] == rest[j - 1]);
                    if i > 0 {
                        assert(all[i] == rest[i - 1]);
                    }
                }
            },
            None => {},
        }
    }
}

/// A row is due from a seed exactly where the seed has the price of a last trade and
/// its symbol is not known to have rows, that is, where none were counted or the count
/// failed; how the price stands to the close does not matter. The row holds the
/// seed's symbol, price and volume, and its price against its close as the change,
/// with a percentage exactly where the close is above zero.
pub proof fn rows_are_due_where_none_are(seed: SeedView, rows: Option<i64>)
    ensures
        due_row(seed, rows) is Some <==> seed.price is Some && match rows {
            Some(n) => n <= 0,
            None => true,
        },
        due_row(seed, rows) matches Some(row) ==> {
            &&& row.symbol == seed.symbol
            &&& Some(row.price) == seed.price
            &&& row.volume == seed.volume
            &&& row.change == Some(Comparison { current: row.price, base: seed.close })
            &&& row.percent_change == (if 0 < seed.close.bits <= 0x7ff0_0000_0000_0000 {
                row.change
            } else {
                None
            })
        },
{
}

/// Of two seeds that both have the price of a last trade, where as many rows were
/// counted, a row is due from both or from neither: neither their prices nor their
/// closes nor their volumes decide.
pub proof fn prices_do_not_decide_what_is_due(seed: SeedView, other: SeedView, rows: Option<i64>)
    requires
        seed.price is Some,
        other.price is Some,
    ensures
        due_row(seed, rows) is Some == due_row(other, rows) is Some,
{
}

/// How many of the first seeds have a row due.
pub open spec fn due_before(seeds: Seq<SeedView>, counts: Seq<Option<i64>>, n: nat) -> nat
    decreases n,
{
    if n == 0 {
        0
    } else {
        let i = n - 1;
        due_before(seeds, counts, i as nat) + if seeds[i].price is Some && match counts[i] {
            Some(rows) => rows <= 0,
            None => true,
        } {
            1nat
        } else {
            0nat
        }
    }
}

/// How many of the first seeds have a row due that can be stored.
pub open spec fn stored_before(
    seeds: Seq<SeedView>,
    counts: Seq<Option<i64>>,
    stored: Seq<bool>,
    n: nat,
) -> nat
    decreases n,
{
    if n == 0 {
        0
    } else {
        let i = n - 1;
        stored_before(seeds, counts, stored, i as nat) + if seeds[i].price is Some && match counts[i] {
            Some(rows) => rows <= 0,
            None => true,
        } && stored[i] {
            1nat
        } else {
            0nat
        }
    }
}

proof fn due_before_grows(seeds: Seq<SeedView>, counts: Seq<Option<i64>>, from: nat, to: nat)
    requires
        from <= to,
    ensures
        due_before(seeds, counts, from) <= due_before(seeds, counts, to),
    decreases to - from,
{
    if from < to {
        due_before_grows(seeds, counts, from, (to - 1) as nat);
    }
}

proof fn due_rows_are_counted(
    seeds: Seq<SeedView>,
    counts: Seq<Option<i64>>,
    stored: Seq<bool>,
    from: nat,
)
    requires
        from <= seeds.len(),
    ensures
        due_rows(seeds, counts, from).len() == due_before(seeds, counts, seeds.len()) - due_before(
            seeds,
            counts,
            from,
        ),
        stored_rows(seeds, counts, stored, from) == stored_before(
            seeds,
            counts,
            stored,
            seeds.len(),
        ) - stored_before(seeds, counts, stored, from),
    decreases seeds.len() - from,
{
    if from < seeds.len() {
        due_rows_are_counted(seeds, counts, stored, from + 1);
        rows_are_due_where_none_are(seeds[from as int], counts[from as int]);
        assert(due_before(seeds, counts, from + 1) == due_before(seeds, counts, from) + if due_row(
            seeds[from as int],
            counts[from as int],
        ) is Some {
            1int
        } else {
            0int
        });
    }
}

proof fn due_row_stands_in_place(
    seeds: Seq<SeedView>,
    counts: Seq<Option<i64>>,
    from: nat,
    k: nat,
)
    requires
        from <= k < seeds.len(),
        due_row(seeds[k as int], counts[k as int]) is Some,
    ensures
        ({
            let i = due_before(seeds, counts, k) - due_before(seeds, counts, from);
            &&& 0 <= i < due_rows(seeds, counts, from).len()
            &&& due_row(seeds[k as int], counts[k as int]) == Some(
                due_rows(seeds, counts, from)[i],
            )
        }),
    decreases k - from,
{
    rows_are_due_where_none_are(seeds[from as int], counts[from as int]);
    due_before_grows(seeds, counts, from, k);
    if from < k {
        due_row_stands_in_place(seeds, counts, from + 1, k);
        due_before_grows(seeds, counts, from + 1, k);
    }
}

/// Seeding is complete: a pass over seeds asks to store a row for every seed that has
/// the price of a last trade and whose symbol has no counted rows, and for no other,
/// in the order of the seeds; each row holds what its seed holds; and it reports how
/// many of these rows were stored, out of how many seeds.
pub proof fn every_new_symbol_is_seeded(
    seeds: Seq<SeedView>,
    counts: Seq<Option<i64>>,
    stored: Seq<bool>,
    k: nat,
)
    requires
        k < seeds.len(),
    ensures
        ({
            let (rows, end) = run(pass_start(seeds).ask(), counts, stored);
            let seed = seeds[k as int];
            &&& rows.len() == due_before(seeds, counts, seeds.len())
            &&& end == SeedTaskView::Done {
                seeded: stored_before(seeds, counts, stored, seeds.len()),
                symbols: seeds.len(),
            }
            &&& seed.price is Some && match counts[k as int] {
                Some(n) => n <= 0,
                None => true,
            } ==> {
                let row = rows[due_before(seeds, counts, k) as int];
                &&& due_before(seeds, counts, k) < rows.len()
                &&& row.symbol == seed.symbol
                &&& Some(row.price) == seed.price
                &&& row.volume == seed.volume
                &&& row.change == Some(Comparison { current: row.price, base: seed.close })
                &&& row.percent_change == (if 0 < seed.close.bits <= 0x7ff0_0000_0000_0000 {
                    row.change
                } else {
                    None
                })
            }
        }),
{
    let seed = seeds[k as int];
    pass_stores_due_rows(pass_start(seeds), counts, stored);
    due_rows_are_counted(seeds, counts, stored, 0);
    rows_are_due_where_none_are(seed, counts[k as int]);
    if due_row(seed, counts[k as int]) is Some {
        due_row_stands_in_place(seeds, counts, 0, k);
    }
}

/// A pass counts the rows of one seed after the other: it starts at the first, and
/// from each seed it goes to the one behind, whether a row was due or not and whether
/// it was stored or not; it ends behind the last.
pub proof fn passes_go_seed_by_seed(pass: PassView, rows: Option<i64>, stored: bool)
    requires
        pass.next < pass.seeds.len(),
    ensures
        pass_start(pass.seeds).seeds == pass.seeds,
        pass_start(pass.seeds).next == 0,
        pass_start(pass.seeds).seeded == 0,
        pass.ask() == SeedTaskView::Count(pass),
        match pass.after_count(rows) {
            SeedTaskView::Insert(same, row) => {
                &&& same == pass
                &&& due_row(pass.seeds[pass.next as int], rows) == Some(row)
            },
            SeedTaskView::Count(next) => {
                &&& due_row(pass.seeds[pass.next as int], rows) is None
                &&& next.seeds == pass.seeds
                &&& next.next == pass.next + 1 < pass.seeds.len()
                &&& next.seeded == pass.seeded
            },
            SeedTaskView::Done { seeded, symbols } => {
                &&& due_row(pass.seeds[pass.next as int], rows) is None
                &&& pass.next + 1 == pass.seeds.len()
                &&& seeded == pass.seeded
                &&& symbols == pass.seeds.len()
            },
        },
        match pass.after_insert(stored) {
            SeedTaskView::Insert(_, _) => false,
            SeedTaskView::Count(next) => {
                &&& next.seeds == pass.seeds
                &&& next.next == pass.next + 1 < pass.seeds.len()
                &&& next.seeded == pass.seeded + if stored {
                    1int
                } else {
                    0int
                }
            },
            SeedTaskView::Done { seeded, symbols } => {
                &&& pass.next + 1 == pass.seeds.len()
                &&& seeded == pass.seeded + if stored {
                    1int
                } else {
                    0int
                }
                &&& symbols == pass.seeds.len()
            },
        },
{
}

/// A task stands for its own parts; a report says how many rows were stored and how
/// many seeds there were, each under its own name.
pub proof fn tasks_stand_for_their_parts(task: SeedTask)
    ensures
        match task {
            SeedTask::Count(count) => task@ == SeedTaskView::Count(count@),
            SeedTask::Insert(insert) => task@ == SeedTaskView::Insert(insert@, insert.due()),
            SeedTask::Done(report) => task@ matches SeedTaskView::Done { seeded, symbols } && seeded
                == report.seeded && symbols == report.symbols,
        },
{
}

} // verus!
