//! A verified core for a news-to-feed service: declarative per-source
//! scraping rules, an extraction pipeline from fetched pages to structured
//! articles, a shared feed cache, and feed rendering. Network fetches and
//! the HTTP server live outside this crate and exchange plain values with
//! it.

pub mod cache;
pub mod dateparse;
pub mod datetime;
pub mod error;
pub mod feed;
pub mod html;
pub mod scraper;
pub mod textparse;
pub mod tz;
pub mod urls;
