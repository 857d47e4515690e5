//! Load tests: their configuration and the set-up of a benchmark.

use vstd::prelude::*;

verus! {

/// Load test configuration.
#[derive(Debug, Clone)]
pub struct LoadTestConfig {
    /// Number of concurrent clients.
    pub concurrency: usize,
    /// Total number of requests.
    pub total_requests: u64,
    /// Seconds after which a request is given up.
    pub timeout_secs: u64,
    /// Target host.
    pub host: String,
    /// Target port.
    pub port: u16,
}

impl Default for LoadTestConfig {
    /// Ten clients, 10,000 requests, five seconds, the local server.
    fn default() -> (c: LoadTestConfig)
        ensures
            c.concurrency == 10,
            c.total_requests == 10000,
            c.timeout_secs == 5,
            c.host@ == "127.0.0.1"@,
            c.port == 6380,
    {
        LoadTestConfig {
            concurrency: 10,
            total_requests: 10000,
            timeout_secs: 5,
            host: String::from_str("127.0.0.1"),
            port: 6380,
        }
    }
}

impl LoadTestConfig {
    /// The same configuration with this number of clients.
    pub fn with_concurrency(self, n: usize) -> (c: LoadTestConfig)
        ensures
            c.concurrency == n,
            c.total_requests == self.total_requests,
            c.timeout_secs == self.timeout_secs,
            c.host == self.host,
            c.port == self.port,
    {
        let mut c = self;
        c.concurrency = n;
        c
    }

    /// The same configuration with this number of requests.
    pub fn with_requests(self, n: u64) -> (c: LoadTestConfig)
        ensures
            c.total_requests == n,
            c.concurrency == self.concurrency,
            c.timeout_secs == self.timeout_secs,
            c.host == self.host,
            c.port == self.port,
    {
        let mut c = self;
        c.total_requests = n;
        c
    }

    /// The same configuration with this target.
    pub fn with_target(self, host: &str, port: u16) -> (c: LoadTestConfig)
        ensures
            c.host@ == host@,
            c.port == port,
            c.concurrency == self.concurrency,
            c.total_requests == self.total_requests,
            c.timeout_secs == self.timeout_secs,
    {
        let mut c = self;
        c.host = String::from_str(host);
        c.port = port;
        c
    }
}

/// Set-up of a benchmark: its name, how often the operation is measured,
/// and how often it is run before that.
pub struct Benchmark {
    pub name: String,
    pub iterations: u64,
    pub warmup: u64,
}

impl Benchmark {
    /// A benchmark of 1000 iterations after 100 of warm-up.
    pub fn new(name: &str) -> (b: Benchmark)
        ensures
            b.name@ == name@,
            b.iterations == 1000,
            b.warmup == 100,
    {
        Benchmark { name: String::from_str(name), iterations: 1000, warmup: 100 }
    }

    /// The same benchmark with this number of measured runs.
    pub fn iterations(self, n: u64) -> (b: Benchmark)
        ensures
            b.iterations == n,
            b.name == self.name,
            b.warmup == self.warmup,
    {
        let mut b = self;
        b.iterations = n;
        b
    }

    /// The same benchmark with this number of runs before measuring.
    pub fn warmup(self, n: u64) -> (b: Benchmark)
        ensures
            b.warmup == n,
            b.name == self.name,
            b.iterations == self.iterations,
    {
        let mut b = self;
        b.warmup = n;
        b
    }
}

} // verus!
