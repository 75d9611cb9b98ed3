//! The rules of a dashboard for leveraged funds: which funds are followed, what
//! is asked of the market-data service, how its answers are read, which rows
//! are stored, and what the dashboard shows of them.
//!
//! Prices are IEEE 754 doubles held by their bits ([`price::Price`]). This crate
//! decides which two prices are compared and when; the arithmetic on the two
//! doubles belongs to its caller.

pub mod bars;
pub mod baseline;
pub mod dates;
pub mod doubles;
pub mod feed;
pub mod history;
pub mod json;
pub mod payload;
pub mod performance;
pub mod price;
pub mod quotes;
pub mod requests;
pub mod rows;
pub mod seeding;
pub mod sequences;
pub mod store;
pub mod text;
pub mod tickers;
