//! Crawl-cache-index pipeline for an authenticated content site.
//!
//! The library holds the pipeline's logic: a content-addressed, versioned
//! page cache with staleness detection, the decisions of a login-driven
//! sequential crawl, extraction of structured records from raw markup, and
//! incremental maintenance of a full-text index keyed by a "last indexed"
//! watermark.  Network traffic, the filesystem and the process surface live
//! outside the library and hand it plain values.

pub mod cache;
pub mod config;
pub mod convert;
pub mod download;
pub mod error;
pub mod search;
