//! Verified core of an IPC round-trip benchmark suite: command-line
//! configuration, number texts, measurement batching, shared-memory ring and
//! mailbox layouts, message sizing rules, and the per-method session
//! protocols that the executable drives.

pub mod number_text;
pub mod config;
pub mod stats;
pub mod shared_memory;
pub mod word_bytes;
pub mod alpc;
pub mod util;
pub mod protocol;
pub mod session;
pub mod transfer;
