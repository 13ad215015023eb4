//! Decision core of a conformance proxy.
//!
//! The proxy stands in front of two backends that are meant to behave alike.
//! It answers clients from the primary, replays writes against the shadow,
//! compares sampled reads, and shows where the two diverge. This crate holds
//! what the proxy decides; reading, sending and storing are up to its caller.
//!
//! * `proxy`: what a request is, what is sent on, what is owed to the shadow
//! * `diff`: when two responses diverge, and how severely
//! * `worker`: replaying writes, watching the backends, resynchronising them
//! * `db`: the records, and `laws`: what holds of them across operations
//! * `dashboard` and `scoreboard`: the pages and documents that show the
//!   records, and `pages`: that they hold no script
//! * `alerting`: who is told of a critical difference, and what
//! * `config`: settings and their defaults
//! * `json`, `calendar`, `text`, `html`: documents, dates, texts and page frames
pub mod alerting;
pub mod calendar;
pub mod config;
pub mod dashboard;
pub mod db;
pub mod diff;
pub mod html;
pub mod json;
pub mod laws;
pub mod pages;
pub mod proxy;
pub mod scoreboard;
pub mod text;
pub mod worker;
