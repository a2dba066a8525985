//! Core engine of a terminal dashboard for an intrusion-prevention daemon.
//!
//! The library decides when each category of data is stale and must be
//! re-fetched, splits the expensive banned-address fetch across two polls so
//! the interface can repaint first, derives a filtered and paginated view of
//! the banned-address records, and incrementally tails a growing log file.
//! Process invocation, file reading and rendering live outside the library;
//! they hand plain values in and take plain values back.

pub mod client;
pub mod clock;
pub mod errors;
pub mod filter;
pub mod ini;
pub mod logfilter;
pub mod logparse;
pub mod model;
pub mod monitor;
pub mod pagination;
pub mod records;
pub mod sorting;
pub mod state;
pub mod text;
pub mod tier;
