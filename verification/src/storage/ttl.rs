//! The sweeper of the single-table store: at a fixed cadence it removes
//! the entries that have expired.
//!
//! The waiting is done by the program around the library; each time the
//! interval has passed it calls `tick`.

use vstd::prelude::*;
use super::entry::live_entries;
use super::store::Store;

verus! {

/// The default cadence of the sweeper, in seconds.
pub const DEFAULT_SWEEP_INTERVAL_SECS: u64 = 10;

/// Periodic remover of expired entries.
#[derive(Debug, Clone, Copy, PartialEq, Eq, Structural)]
pub struct TtlCleaner {
    /// Seconds between two sweeps.
    pub interval_secs: u64,
}

impl TtlCleaner {
    /// A sweeper with this cadence.
    pub fn new(interval_secs: u64) -> (c: TtlCleaner)
        ensures
            c.interval_secs == interval_secs,
    {
        TtlCleaner { interval_secs }
    }

    /// The cadence in seconds.
    pub fn interval_secs(&self) -> (n: u64)
        ensures
            n == self.interval_secs,
    {
        self.interval_secs
    }

    /// One sweep at `now`: removes the expired entries and returns how
    /// many they were.
    pub fn tick_at(&self, store: &mut Store, now: u64) -> (removed: usize)
        requires
            old(store).wf(),
        ensures
            final(store).wf(),
            final(store)@ == live_entries(old(store)@, now),
            removed == old(store)@.len() - final(store)@.len(),
    {
        store.cleanup_expired_at(now)
    }

    /// One sweep now.
    pub fn tick(&self, store: &mut Store) -> (removed: usize)
        requires
            old(store).wf(),
        ensures
            final(store).wf(),
            removed == old(store)@.len() - final(store)@.len(),
            exists|now: u64| final(store)@ == #[trigger] live_entries(old(store)@, now),
    {
        store.cleanup_expired()
    }
}

} // verus!
