//! What readers of the cache use: queries, the log of changes, and the commands and the
//! events of the server.

pub mod cmd;
pub mod follow;
pub mod query;
pub mod stream;
pub mod tail;
pub mod types;
