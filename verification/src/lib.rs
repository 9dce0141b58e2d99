//! Incremental harvester for a paginated archive of tabular ICU reports.
//!
//! The library covers the verified core of the system: normalizing raw
//! tabular records into a canonical row schema, walking a paginated HTML
//! listing one page at a time, decoding delimited report files into dated
//! datasets, and keeping an idempotent ledger of already-ingested sources.
//! Network transport and on-disk persistence live outside the library and
//! hand it plain values.

pub mod error;
pub mod text;
pub mod time;
pub mod record;
pub mod dataset;
pub mod current;
pub mod table;
pub mod fetch;
pub mod archive;
pub mod store;
pub mod sync;
