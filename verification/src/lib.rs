//! Incremental sync of a syndication feed into a version-controlled
//! static-site repository: watermark-based diffing of feed entries,
//! deterministic rendering of each new entry as a markdown document,
//! and atomic publication of document, media and watermark.

pub mod date;
pub mod download;
pub mod feed;
pub mod github;
pub mod markdown;
pub mod store;
pub mod strutil;
pub mod sync;
