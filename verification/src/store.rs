//! The statements that the quote table is kept and read with.

use vstd::prelude::*;

verus! {

/// Creates the table and its index where they are missing.
pub const CREATE_QUOTES: &'static str =
    "CREATE TABLE IF NOT EXISTS quotes (
        id INTEGER PRIMARY KEY AUTOINCREMENT,
        symbol TEXT NOT NULL,
        ts INTEGER NOT NULL,
        price REAL NOT NULL,
        change REAL NOT NULL,
        percent_change REAL NOT NULL,
        volume INTEGER
    );
    CREATE INDEX IF NOT EXISTS idx_quotes_symbol_ts ON quotes(symbol, ts);";

/// Counts the rows of a symbol.
pub const COUNT_QUOTES: &'static str = "SELECT COUNT(*) FROM quotes WHERE symbol = ?1";

/// Stores a row.
pub const INSERT_QUOTE: &'static str =
    "INSERT INTO quotes (symbol, ts, price, change, percent_change, volume) VALUES (?1, ?2, ?3, ?4, ?5, ?6)";

/// The latest row of a symbol.
pub const LATEST_QUOTE: &'static str =
    "SELECT ts, price, change, percent_change, volume FROM quotes WHERE symbol = ?1 ORDER BY ts DESC LIMIT 1";

/// The latest price of a symbol up to a moment.
pub const PRICE_AS_OF: &'static str =
    "SELECT price FROM quotes WHERE symbol = ?1 AND ts <= ?2 ORDER BY ts DESC LIMIT 1";

/// The first price of a symbol.
pub const FIRST_PRICE: &'static str =
    "SELECT price FROM quotes WHERE symbol = ?1 ORDER BY ts ASC LIMIT 1";

/// The latest prices of a symbol, newest first.
pub const LATEST_PRICES: &'static str =
    "SELECT ts, price FROM quotes WHERE symbol = ?1 ORDER BY ts DESC LIMIT 100";

/// The statements that read the table look at the rows of one symbol alone. The latest
/// row and the latest price up to a moment come first when the newest rows do, the
/// first price when the oldest do, and each is one row; the latest prices are a
/// hundred, newest first.
pub proof fn readings_look_at_one_symbol()
    ensures
        COUNT_QUOTES@ == "SELECT COUNT(*)"@ + " FROM quotes WHERE symbol = ?1"@,
        LATEST_QUOTE@ == "SELECT ts, price, change, percent_change, volume"@
            + " FROM quotes WHERE symbol = ?1"@ + " ORDER BY ts DESC"@ + " LIMIT 1"@,
        PRICE_AS_OF@ == "SELECT price"@ + " FROM quotes WHERE symbol = ?1"@ + " AND ts <= ?2"@
            + " ORDER BY ts DESC"@ + " LIMIT 1"@,
        FIRST_PRICE@ == "SELECT price"@ + " FROM quotes WHERE symbol = ?1"@ + " ORDER BY ts ASC"@
            + " LIMIT 1"@,
        LATEST_PRICES@ == "SELECT ts, price"@ + " FROM quotes WHERE symbol = ?1"@
            + " ORDER BY ts DESC"@ + " LIMIT 100"@,
{
    reveal_strlit("SELECT COUNT(*)");
    reveal_strlit("SELECT price");
    reveal_strlit("SELECT ts, price");
    reveal_strlit("SELECT ts, price, change, percent_change, volume");
    reveal_strlit(" FROM quotes WHERE symbol = ?1");
    reveal_strlit(" AND ts <= ?2");
    reveal_strlit(" ORDER BY ts DESC");
    reveal_strlit(" ORDER BY ts ASC");
    reveal_strlit(" LIMIT 1");
    reveal_strlit(" LIMIT 100");
    reveal_strlit("SELECT COUNT(*) FROM quotes WHERE symbol = ?1");
    reveal_strlit(
        "SELECT ts, price, change, percent_change, volume FROM quotes WHERE symbol = ?1 ORDER BY ts DESC LIMIT 1",
    );
    reveal_strlit(
        "SELECT price FROM quotes WHERE symbol = ?1 AND ts <= ?2 ORDER BY ts DESC LIMIT 1",
    );
    reveal_strlit("SELECT price FROM quotes WHERE symbol = ?1 ORDER BY ts ASC LIMIT 1");
    reveal_strlit("SELECT ts, price FROM quotes WHERE symbol = ?1 ORDER BY ts DESC LIMIT 100");
}

/// A row is stored with one value for each column but its number, in the order in which
/// they are named.
pub proof fn rows_are_stored_column_by_column()
    ensures
        INSERT_QUOTE@ == "INSERT INTO quotes"@
            + " (symbol, ts, price, change, percent_change, volume)"@
            + " VALUES (?1, ?2, ?3, ?4, ?5, ?6)"@,
{
    reveal_strlit("INSERT INTO quotes");
    reveal_strlit(" (symbol, ts, price, change, percent_change, volume)");
    reveal_strlit(" VALUES (?1, ?2, ?3, ?4, ?5, ?6)");
    reveal_strlit(
        "INSERT INTO quotes (symbol, ts, price, change, percent_change, volume) VALUES (?1, ?2, ?3, ?4, ?5, ?6)",
    );
}

/// The table is made where it is missing, with a number of its own for each row and a
/// column for each value that a row is stored with, of which only the volume may be
/// missing; and its rows are found by symbol and time.
pub proof fn the_table_has_a_column_for_each_value()
    ensures
        CREATE_QUOTES@ == "CREATE TABLE IF NOT EXISTS quotes (\n"@
            + "        id INTEGER PRIMARY KEY AUTOINCREMENT,\n"@
            + "        symbol TEXT NOT NULL,\n"@
            + "        ts INTEGER NOT NULL,\n"@
            + "        price REAL NOT NULL,\n"@
            + "        change REAL NOT NULL,\n"@
            + "        percent_change REAL NOT NULL,\n"@
            + "        volume INTEGER\n    );\n"@
            + "    CREATE INDEX IF NOT EXISTS idx_quotes_symbol_ts ON quotes(symbol, ts);"@,
{
    reveal_strlit("CREATE TABLE IF NOT EXISTS quotes (\n");
    reveal_strlit("        id INTEGER PRIMARY KEY AUTOINCREMENT,\n");
    reveal_strlit("        symbol TEXT NOT NULL,\n");
    reveal_strlit("        ts INTEGER NOT NULL,\n");
    reveal_strlit("        price REAL NOT NULL,\n");
    reveal_strlit("        change REAL NOT NULL,\n");
    reveal_strlit("        percent_change REAL NOT NULL,\n");
    reveal_strlit("        volume INTEGER\n    );\n");
    reveal_strlit("    CREATE INDEX IF NOT EXISTS idx_quotes_symbol_ts ON quotes(symbol, ts);");
    reveal_strlit(
        "CREATE TABLE IF NOT EXISTS quotes (
        id INTEGER PRIMARY KEY AUTOINCREMENT,
        symbol TEXT NOT NULL,
        ts INTEGER NOT NULL,
        price REAL NOT NULL,
        change REAL NOT NULL,
        percent_change REAL NOT NULL,
        volume INTEGER
    );
    CREATE INDEX IF NOT EXISTS idx_quotes_symbol_ts ON quotes(symbol, ts);",
    );
}

} // verus!
