//! A cache of GitHub data in SQLite: what is fetched and when, what is written to the cache,
//! and what its readers are shown.
//!
//! The library reads and writes nothing itself. It names the statements, commands and texts
//! that the program around it runs or sends, and says what follows from what comes back.

pub mod checkout;
pub mod client;
pub mod cmd;
pub mod config;
pub mod db;
pub mod gh;
pub mod http;
pub mod json;
pub mod laws;
pub mod number;
pub mod outcome;
pub mod output;
pub mod process;
pub mod query;
pub mod report;
pub mod serve;
pub mod sql;
pub mod sync;
pub mod text;
pub mod time;
