//! Rules of the Redis storage backend.
//!
//! Placement is a per-block hash of `worker -> generation:tier bitmask`; a
//! per-worker set is the reverse index; a per-worker hash holds the registry,
//! the applied sequence number and the incarnation fence. The modules below
//! decide what to read and write and what an answer means; the commands
//! themselves are sent by the program around the library.

pub mod agreement;
pub mod apply;
pub mod apply_laws;
pub mod codec;
pub mod commands;
pub mod hits;
pub mod matching;
pub mod replay;
pub mod replies;
pub mod scan;
pub mod scan_laws;
pub mod schema;
pub mod settings;
