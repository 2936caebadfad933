//! Client-side ingestion core for a multi-relay note feed: ordered,
//! deduplicated timeline views, the note cache behind them, the scanner
//! and resolver for references that the local store cannot resolve yet,
//! and the per-tick routing decisions that tie them together.

pub mod damus;
pub mod error;
pub mod filter;
pub mod ids;
pub mod imgcache;
pub mod merge;
pub mod note;
pub mod notecache;
pub mod noteref;
pub mod poll;
pub mod relay;
pub mod resolve;
pub mod store;
pub mod subid;
pub mod timeline;
pub mod unknowns;
