//! Native core of a multi-cloud file client: a chunked authenticated-encryption
//! container with streaming sessions, transfer sessions that count, throttle
//! and poll for cancellation while the host moves the bytes, and an in-memory
//! search index.

// Outcomes and small building blocks.
pub mod error;
pub mod le_bytes;
pub mod order;
pub mod str_map;
pub mod str_set;
pub mod text;

// The encrypted container.
pub mod container;
pub mod primitives;
pub mod session;
pub mod whole_file;

// Transfers.
pub mod cancel;
pub mod copy;
pub mod download;
pub mod folder_copy;
pub mod listing;
pub mod progress;
pub mod pump;
pub mod scan;
pub mod unified_copy;
pub mod upload;

// Search.
pub mod search;
