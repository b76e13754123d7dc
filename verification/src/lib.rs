//! Incremental decoder for tar-formatted byte streams.
//!
//! The decoder is a resumable state machine: the caller reads bytes from an
//! arbitrary non-blocking source and feeds each delivery in, and the decoder
//! answers with the next action (read more bytes, a resolved entry, or end
//! of archive). Every multi-step parse keeps its exact byte-position state,
//! so a read that delivers only part of a 512-byte record can be resumed
//! later with no re-reading and no data loss.
//!
//! The layers, leaves first: `fill` resumes partial record reads, `octal`
//! and `header` interpret one 512-byte record, `sparse` reconstructs GNU
//! sparse content from fragment descriptors, `raw` turns records into raw
//! entries, and `stream` merges continuation records and sparse extension
//! blocks into fully resolved logical entries. `extract` orders resolved
//! entries for application to a filesystem.

pub mod config;
pub mod error;
pub mod extract;
pub mod fill;
pub mod header;
pub mod octal;
pub mod raw;
pub mod sparse;
pub mod stream;

pub use config::DecodeConfig;
pub use error::DecodeError;
pub use extract::extraction_order;
pub use header::Header;
pub use raw::{RawDecoder, RawEntry, RawStep};
pub use sparse::{Segment, SparseBuilder};
pub use stream::{EntryDecoder, LogicalEntry, StreamStep};
