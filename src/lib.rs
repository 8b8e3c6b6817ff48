//! Frame-rate unlocking support: signature scanning over process memory,
//! chunked memory transfers, process and module lookup, and a tolerant
//! codec for JSON settings blobs stored as binary values.

pub mod scanner;
pub mod memory;
pub mod process;
pub mod codec;
pub mod matcher;
pub mod limits;
