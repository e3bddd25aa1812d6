//! Ingestion and normalization pipeline for a public game-activity feed.
//!
//! The library turns raw HTML pages into structured activity records:
//! it extracts per-entry fragments, classifies free-text status phrases,
//! filters entries against a freshness window, collapses duplicates within
//! one poll cycle, and truncates review text to a bounded length. Network
//! fetching, chat delivery and credential storage are left to the caller;
//! the HTML tree walking itself is delegated to the `scraper` crate behind
//! a small set of trusted declarations.

pub mod text;
pub mod status;
pub mod stars;
pub mod calendar;
pub mod summarize;
pub mod entry;
pub mod scrape;
pub mod extract;
pub mod dedup;
pub mod pipeline;
pub mod notify;
pub mod config;
pub mod ratings;
