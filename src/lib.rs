//! Discovery of promotion links: a paginated collector of candidate URLs and a
//! crawler that visits them in order while keeping a per-host cooldown.

pub mod candidate;
pub mod error;
pub mod config;
pub mod ledger;
pub mod crawler;
pub mod collector;
