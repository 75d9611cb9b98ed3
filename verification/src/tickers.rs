//! The funds that the dashboard follows.

use vstd::prelude::*;
use crate::text::{join, joined, same_text, texts};

verus! {

/// How many symbols one connection to the free market-data stream may follow.
pub const STREAM_SYMBOL_LIMIT: usize = 30;

/// The followed funds: symbol and full name, in the order in which they are shown.
pub open spec fn ticker_table() -> Seq<(Seq<char>, Seq<char>)> {
    seq![
        ("TQQQ"@, "ProShares UltraPro QQQ (3x Nasdaq-100)"@),
        ("SQQQ"@, "ProShares UltraPro Short QQQ (3x inverse Nasdaq-100)"@),
        ("SOXL"@, "Direxion Daily Semiconductor Bull 3x"@),
        ("SOXS"@, "Direxion Daily Semiconductor Bear 3x"@),
        ("UPRO"@, "ProShares UltraPro S&P 500"@),
        ("SPXU"@, "ProShares UltraPro Short S&P 500 (3x inverse)"@),
        ("SPXL"@, "Direxion Daily S&P 500 Bull 3x"@),
        ("SPXS"@, "Direxion Daily S&P 500 Bear 3x"@),
        ("TNA"@, "Direxion Daily Small Cap Bull 3x"@),
        ("TZA"@, "Direxion Daily Small Cap Bear 3x"@),
        ("FAS"@, "Direxion Daily Financial Bull 3x"@),
        ("FAZ"@, "Direxion Daily Financial Bear 3x"@),
        ("TECL"@, "Direxion Daily Technology Bull 3x"@),
        ("TECS"@, "Direxion Daily Technology Bear 3x"@),
        ("LABU"@, "Direxion Daily S&P Biotech Bull 3x"@),
        ("LABD"@, "Direxion Daily S&P Biotech Bear 3x"@),
    ]
}

/// The symbols of the followed funds, in order.
pub open spec fn ticker_symbols() -> Seq<Seq<char>> {
    Seq::new(ticker_table().len(), |i: int| ticker_table()[i].0)
}

/// Whether a symbol is among those followed.
pub open spec fn listed(symbol: Seq<char>) -> bool {
    ticker_symbols().contains(symbol)
}

/// A followed fund.
#[derive(Clone, Copy, Debug)]
pub struct Ticker {
    pub symbol: &'static str,
    pub name: &'static str,
}

impl View for Ticker {
    type V = (Seq<char>, Seq<char>);

    open spec fn view(&self) -> (Seq<char>, Seq<char>) {
        (self.symbol@, self.name@)
    }
}

/// The followed funds.
pub fn tickers() -> (r: Vec<Ticker>)
    ensures
        r@.len() == ticker_table().len(),
        forall|i: int| 0 <= i < r@.len() ==> (#[trigger] r@[i])@ == ticker_table()[i],
{
    vec![
        Ticker { symbol: "TQQQ", name: "ProShares UltraPro QQQ (3x Nasdaq-100)" },
        Ticker { symbol: "SQQQ", name: "ProShares UltraPro Short QQQ (3x inverse Nasdaq-100)" },
        Ticker { symbol: "SOXL", name: "Direxion Daily Semiconductor Bull 3x" },
        Ticker { symbol: "SOXS", name: "Direxion Daily Semiconductor Bear 3x" },
        Ticker { symbol: "UPRO", name: "ProShares UltraPro S&P 500" },
        Ticker { symbol: "SPXU", name: "ProShares UltraPro Short S&P 500 (3x inverse)" },
        Ticker { symbol: "SPXL", name: "Direxion Daily S&P 500 Bull 3x" },
        Ticker { symbol: "SPXS", name: "Direxion Daily S&P 500 Bear 3x" },
        Ticker { symbol: "TNA", name: "Direxion Daily Small Cap Bull 3x" },
        Ticker { symbol: "TZA", name: "Direxion Daily Small Cap Bear 3x" },
        Ticker { symbol: "FAS", name: "Direxion Daily Financial Bull 3x" },
        Ticker { symbol: "FAZ", name: "Direxion Daily Financial Bear 3x" },
        Ticker { symbol: "TECL", name: "Direxion Daily Technology Bull 3x" },
        Ticker { symbol: "TECS", name: "Direxion Daily Technology Bear 3x" },
        Ticker { symbol: "LABU", name: "Direxion Daily S&P Biotech Bull 3x" },
        Ticker { symbol: "LABD", name: "Direxion Daily S&P Biotech Bear 3x" },
    ]
}

/// The symbols of the followed funds.
pub fn symbols() -> (r: Vec<&'static str>)
    ensures
        texts(r@) == ticker_symbols(),
{
    let table = tickers();
    let mut out: Vec<&'static str> = Vec::new();
    let mut i: usize = 0;
    while i < table.len()
        invariant
            i <= table.len(),
            table@.len() == ticker_table().len(),
            forall|k: int| 0 <= k < table@.len() ==> (#[trigger] table@[k])@ == ticker_table()[k],
            out@.len() == i,
            forall|k: int| 0 <= k < i ==> (#[trigger] out@[k])@ == ticker_table()[k].0,
        decreases table.len() - i,
    {
        assert(table@[i as int]@ == ticker_table()[i as int]);
        out.push(table[i].symbol);
        i += 1;
    }
    assert(texts(out@) =~= ticker_symbols());
    out
}

/// The symbols of the followed funds with a comma between neighbours, as a query
/// string holds them.
pub fn symbol_list() -> (r: String)
    ensures
        r@ == joined(ticker_symbols(), ","@),
{
    let parts = symbols();
    join(&parts, ",")
}

/// Whether a symbol is among those followed.
pub fn is_listed(symbol: &str) -> (r: bool)
    ensures
        r == listed(symbol@),
{
    let all = symbols();
    let mut i: usize = 0;
    while i < all.len()
        invariant
            i <= all.len(),
            texts(all@) == ticker_symbols(),
            forall|k: int| 0 <= k < i ==> ticker_symbols()[k] != symbol@,
        decreases all.len() - i,
    {
        assert(ticker_symbols()[i as int] == all@[i as int]@);
        if same_text(all[i], symbol) {
            return true;
        }
        i += 1;
    }
    assert(ticker_symbols().len() == all@.len());
    false
}

/// A number that tells the symbols of the table apart.
spec fn symbol_code(s: Seq<char>) -> int {
    s[0] as int * 0x1000000 + s[1] as int * 0x10000 + s[2] as int * 0x100 + if s.len() > 3 {
        s[3] as int
    } else {
        0
    }
}

/// No symbol is followed twice.
pub proof fn symbols_are_distinct()
    ensures
        ticker_symbols().no_duplicates(),
{
    reveal_strlit("TQQQ");
    reveal_strlit("SQQQ");
    reveal_strlit("SOXL");
    reveal_strlit("SOXS");
    reveal_strlit("UPRO");
    reveal_strlit("SPXU");
    reveal_strlit("SPXL");
    reveal_strlit("SPXS");
    reveal_strlit("TNA");
    reveal_strlit("TZA");
    reveal_strlit("FAS");
    reveal_strlit("FAZ");
    reveal_strlit("TECL");
    reveal_strlit("TECS");
    reveal_strlit("LABU");
    reveal_strlit("LABD");
    assert forall|i: int, j: int|
        0 <= i < ticker_symbols().len() && 0 <= j < ticker_symbols().len() && i != j implies
        ticker_symbols()[i] != ticker_symbols()[j] by {
        assert(symbol_code(ticker_symbols()[i]) != symbol_code(ticker_symbols()[j]));
    }
}

/// The followed funds, each with its own name, bull and bear side by side.
pub proof fn funds_have_their_names()
    ensures
        ticker_table().len() == 16,
        ticker_table()[0] == ("TQQQ"@, "ProShares UltraPro QQQ (3x Nasdaq-100)"@),
        ticker_table()[1] == ("SQQQ"@, "ProShares UltraPro Short QQQ (3x inverse Nasdaq-100)"@),
        ticker_table()[2] == ("SOXL"@, "Direxion Daily Semiconductor Bull 3x"@),
        ticker_table()[3] == ("SOXS"@, "Direxion Daily Semiconductor Bear 3x"@),
        ticker_table()[4] == ("UPRO"@, "ProShares UltraPro S&P 500"@),
        ticker_table()[5] == ("SPXU"@, "ProShares UltraPro Short S&P 500 (3x inverse)"@),
        ticker_table()[6] == ("SPXL"@, "Direxion Daily S&P 500 Bull 3x"@),
        ticker_table()[7] == ("SPXS"@, "Direxion Daily S&P 500 Bear 3x"@),
        ticker_table()[8] == ("TNA"@, "Direxion Daily Small Cap Bull 3x"@),
        ticker_table()[9] == ("TZA"@, "Direxion Daily Small Cap Bear 3x"@),
        ticker_table()[10] == ("FAS"@, "Direxion Daily Financial Bull 3x"@),
        ticker_table()[11] == ("FAZ"@, "Direxion Daily Financial Bear 3x"@),
        ticker_table()[12] == ("TECL"@, "Direxion Daily Technology Bull 3x"@),
        ticker_table()[13] == ("TECS"@, "Direxion Daily Technology Bear 3x"@),
        ticker_table()[14] == ("LABU"@, "Direxion Daily S&P Biotech Bull 3x"@),
        ticker_table()[15] == ("LABD"@, "Direxion Daily S&P Biotech Bear 3x"@),
{
}

/// The symbols are those of the table, each at its place, and a text is listed exactly
/// where it is the symbol of a fund of the table, letter for letter. All of them fit
/// into one connection to the stream.
pub proof fn symbols_are_those_of_the_table(symbol: Seq<char>)
    ensures
        ticker_symbols().len() == ticker_table().len() <= STREAM_SYMBOL_LIMIT,
        STREAM_SYMBOL_LIMIT == 30,
        forall|i: int|
            0 <= i < ticker_table().len() ==> #[trigger] ticker_symbols()[i] == ticker_table()[i].0,
        listed(symbol) <==> exists|i: int|
            0 <= i < ticker_table().len() && (#[trigger] ticker_table()[i]).0 == symbol,
{
    if listed(symbol) {
        let i = choose|i: int|
            0 <= i < ticker_symbols().len() && ticker_symbols()[i] == symbol;
        assert(ticker_table()[i].0 == symbol);
    }
    if exists|i: int| 0 <= i < ticker_table().len() && (#[trigger] ticker_table()[i]).0 == symbol {
        let i = choose|i: int|
            0 <= i < ticker_table().len() && (#[trigger] ticker_table()[i]).0 == symbol;
        assert(ticker_symbols()[i] == symbol);
    }
}

/// A fund stands for its symbol and its name.
pub proof fn tickers_stand_for_their_fields(ticker: Ticker)
    ensures
        ticker@.0 == ticker.symbol@,
        ticker@.1 == ticker.name@,
{
}

} // verus!
