//! clove1db: the rules of an embedded database framework built on redb.
//!
//! This crate holds the logic that decides: how migrations are planned and
//! replayed, how layouts of stored entities are compared, how legacy backups
//! and migration indexes are upgraded, how commit batches are split, and what a
//! database file on disk is classified as. The file and database I/O around it
//! lives in the application crate.

pub mod durability;

pub use durability::{DurabilityMode, DEFAULT_MAX_COMMIT_BATCH_ENTRIES};
pub mod text;
pub mod assoc;
pub mod units;
pub mod metadata;
pub use units::{ClError, Result};
pub mod json;
pub mod migration;
pub mod upgrade;
pub mod backup;
pub mod fsutil;
pub mod storage;
pub mod repository;
pub mod cache;
pub mod blob;
pub mod handle;
