//! The three numbers that shape a purge.

use vstd::prelude::*;

verus! {

/// Keys sent to the store in one command.
pub const CHUNK_SIZE: usize = 100;

/// A progress line is printed once per this many batches.
pub const PRINT_CHUNK_OFFSET: usize = 100;

/// Store commands permitted per second.
pub const REQUESTS_PER_SECOND: u32 = 40;

/// Batch size, progress interval and rate quota of one run.
#[derive(Clone, Copy, Debug, PartialEq, Eq, Structural)]
pub struct Config {
    pub chunk_size: usize,
    pub print_chunk_offset: usize,
    pub requests_per_second: u32,
}

impl Config {
    /// All three numbers are positive: a batch holds a key, progress has an
    /// interval, and the limiter has a rate.
    pub open spec fn wf(&self) -> bool {
        &&& self.chunk_size > 0
        &&& self.print_chunk_offset > 0
        &&& self.requests_per_second > 0
    }

    /// A configuration of the given numbers, or `None` if one of them is zero.
    pub fn new(chunk_size: usize, print_chunk_offset: usize, requests_per_second: u32) -> (config:
        Option<Config>)
        ensures
            config is Some <==> chunk_size > 0 && print_chunk_offset > 0 && requests_per_second
                > 0,
            config is Some ==> config.unwrap() == (Config {
                chunk_size,
                print_chunk_offset,
                requests_per_second,
            }),
    {
        if chunk_size == 0 || print_chunk_offset == 0 || requests_per_second == 0 {
            None
        } else {
            Some(Config { chunk_size, print_chunk_offset, requests_per_second })
        }
    }

    /// The configuration of an ordinary run.
    pub fn standard() -> (config: Config)
        ensures
            config.wf(),
            config.chunk_size == CHUNK_SIZE,
            config.print_chunk_offset == PRINT_CHUNK_OFFSET,
            config.requests_per_second == REQUESTS_PER_SECOND,
    {
        Config {
            chunk_size: CHUNK_SIZE,
            print_chunk_offset: PRINT_CHUNK_OFFSET,
            requests_per_second: REQUESTS_PER_SECOND,
        }
    }
}

impl Default for Config {
    fn default() -> (config: Config)
        ensures
            config.wf(),
            config.chunk_size == CHUNK_SIZE,
            config.print_chunk_offset == PRINT_CHUNK_OFFSET,
            config.requests_per_second == REQUESTS_PER_SECOND,
    {
        Config::standard()
    }
}

} // verus!
