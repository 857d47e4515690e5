//! Server configuration.

use vstd::prelude::*;
use crate::protocol::codec::VcpCodec;

verus! {

/// Server configuration.
#[derive(Debug, Clone)]
pub struct Config {
    /// Bind address.
    pub bind: String,
    /// Port number.
    pub port: u16,
    /// Number of threads for key/value work (0 = one per core).
    pub kv_workers: usize,
    /// Number of threads for vector work (0 = the default, four).
    pub vector_workers: usize,
    /// Seconds between two sweeps of expired entries.
    pub ttl_cleaner_interval: u64,
    /// The greatest payload length that is accepted in a frame.
    pub max_payload: u32,
}

/// The number of vector workers where none is configured.
pub const DEFAULT_VECTOR_WORKERS: usize = 4;

impl Default for Config {
    /// All interfaces, port 6380, one key/value worker per core, four
    /// vector workers, a sweep every ten seconds, and every payload
    /// length that a frame can declare.
    fn default() -> (c: Config)
        ensures
            c.bind@ == "0.0.0.0"@,
            c.port == 6380,
            c.kv_workers == 0,
            c.vector_workers == 4,
            c.ttl_cleaner_interval == 10,
            c.max_payload == u32::MAX,
    {
        Config {
            bind: String::from_str("0.0.0.0"),
            port: 6380,
            kv_workers: 0,
            vector_workers: 4,
            ttl_cleaner_interval: 10,
            max_payload: u32::MAX,
        }
    }
}

impl Config {
    /// The same configuration with another port.
    pub fn with_port(self, port: u16) -> (c: Config)
        ensures
            c.port == port,
            c.bind == self.bind,
            c.kv_workers == self.kv_workers,
            c.vector_workers == self.vector_workers,
            c.ttl_cleaner_interval == self.ttl_cleaner_interval,
            c.max_payload == self.max_payload,
    {
        let mut c = self;
        c.port = port;
        c
    }

    /// The same configuration with another bind address.
    pub fn with_bind(self, bind: &str) -> (c: Config)
        ensures
            c.bind@ == bind@,
            c.port == self.port,
            c.kv_workers == self.kv_workers,
            c.vector_workers == self.vector_workers,
            c.ttl_cleaner_interval == self.ttl_cleaner_interval,
            c.max_payload == self.max_payload,
    {
        let mut c = self;
        c.bind = String::from_str(bind);
        c
    }

    /// The same configuration with another sweep interval, in seconds.
    pub fn with_ttl_interval(self, interval: u64) -> (c: Config)
        ensures
            c.ttl_cleaner_interval == interval,
            c.bind == self.bind,
            c.port == self.port,
            c.kv_workers == self.kv_workers,
            c.vector_workers == self.vector_workers,
            c.max_payload == self.max_payload,
    {
        let mut c = self;
        c.ttl_cleaner_interval = interval;
        c
    }

    /// The same configuration with another limit of the payload length.
    pub fn with_max_payload(self, max_payload: u32) -> (c: Config)
        ensures
            c.max_payload == max_payload,
            c.bind == self.bind,
            c.port == self.port,
            c.kv_workers == self.kv_workers,
            c.vector_workers == self.vector_workers,
            c.ttl_cleaner_interval == self.ttl_cleaner_interval,
    {
        let mut c = self;
        c.max_payload = max_payload;
        c
    }

    /// A codec for one connection: at the start of a stream, with the
    /// configured limit of the payload length.
    pub fn codec(&self) -> (c: VcpCodec)
        ensures
            c.pending() is None,
            c.max_payload() == self.max_payload,
    {
        VcpCodec::with_max_payload(self.max_payload)
    }

    /// The number of key/value workers to start on a machine of `cores`
    /// cores: the configured number, or one per core where it is zero.
    pub fn kv_worker_count(&self, cores: usize) -> (n: usize)
        ensures
            n == if self.kv_workers == 0 {
                cores
            } else {
                self.kv_workers
            },
    {
        if self.kv_workers == 0 {
            cores
        } else {
            self.kv_workers
        }
    }

    /// The number of vector workers to start: the configured number, or
    /// four where it is zero.
    pub fn vector_worker_count(&self) -> (n: usize)
        ensures
            n == if self.vector_workers == 0 {
                DEFAULT_VECTOR_WORKERS
            } else {
                self.vector_workers
            },
    {
        if self.vector_workers == 0 {
            DEFAULT_VECTOR_WORKERS
        } else {
            self.vector_workers
        }
    }
}

} // verus!
