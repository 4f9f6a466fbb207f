//! Ordered, bounded-concurrency crawling of chaptered web-novel catalogues.
//!
//! The modules hold the decisions of the crawl pipeline: which pages a
//! position selects, how listing rows become novels, how chapters are
//! selected and numbered, how results are put back in admission order, and
//! how categories keep their identity across re-scrapes.

pub mod catalog;
pub mod ddxsku;
pub mod doc;
pub mod ids;
pub mod keeper;
pub mod limiter;
pub mod listing;
pub mod novels;
pub mod position;
pub mod qubige;
pub mod repo;
pub mod sections;
pub mod sender;
pub mod spider;
pub mod text;
pub mod webook;
