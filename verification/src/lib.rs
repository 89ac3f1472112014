//! Verified core of a snapshot-history aggregation pipeline.
//!
//! The library retrieves nothing itself: callers perform HTTP requests and
//! file writes, while everything that decides, parses, accumulates or
//! formats lives here with a contract.

pub mod retry;
pub mod strutil;
pub mod json;
pub mod timefmt;
pub mod model;
pub mod parse;
pub mod aggregate;
pub mod csvout;
