//! What the command line shows of the cache.

pub mod notifications;
pub mod prs;
pub mod sql;
