//! Purging a list of cache keys from a key-value store.
//!
//! The key list arrives as a zlib-compressed, newline-delimited text file.
//! This library holds every decision of the purge: how the archive becomes
//! text, how the text becomes lines, how the lines become batches, and in
//! what order the caller prints progress, waits for the rate limiter and
//! sends a batch to the store. The caller owns the files, the clock and the
//! connection; it feeds events to a [`deleter::Deleter`] and performs the
//! actions it gets back.

pub mod archive;
pub mod args;
pub mod chunker;
pub mod config;
pub mod deleter;
pub mod error;
pub mod lines;
