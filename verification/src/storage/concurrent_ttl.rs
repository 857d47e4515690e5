//! The sweeper of the sharded store: at a fixed cadence it removes the
//! entries that have expired.
//!
//! The waiting is done by the program around the library; each time the
//! interval has passed it calls `tick`.

use vstd::prelude::*;
use super::concurrent_store::ConcurrentStore;
use super::entry::live_entries;

verus! {

/// Periodic remover of expired entries.
#[derive(Debug, Clone, Copy, PartialEq, Eq, Structural)]
pub struct ConcurrentTtlCleaner {
    /// Seconds between two sweeps.
    pub interval_secs: u64,
}

impl ConcurrentTtlCleaner {
    /// A sweeper with this cadence.
    pub fn new(interval_secs: u64) -> (c: ConcurrentTtlCleaner)
        ensures
            c.interval_secs == interval_secs,
    {
        ConcurrentTtlCleaner { interval_secs }
    }

    /// The cadence in seconds.
    pub fn interval_secs(&self) -> (n: u64)
        ensures
            n == self.interval_secs,
    {
        self.interval_secs
    }

    /// One sweep at `now`: removes the expired entries and returns how
    /// many they were.
    pub fn tick_at(&self, store: &mut ConcurrentStore, now: u64) -> (removed: usize)
        requires
            old(store).wf(),
        ensures
            final(store).wf(),
            final(store)@ == live_entries(old(store)@, now),
            removed == old(store)@.len() - final(store)@.len(),
    {
        store.cleanup_expired_at(now)
    }

    /// One sweep now.
    pub fn tick(&self, store: &mut ConcurrentStore) -> (removed: usize)
        requires
            old(store).wf(),
        ensures
            final(store).wf(),
            removed == old(store)@.len() - final(store)@.len(),
            exists|now: u64| final(store)@ == #[trigger] live_entries(old(store)@, now),
    {
        store.cleanup_expired()
    }
}

} // verus!
