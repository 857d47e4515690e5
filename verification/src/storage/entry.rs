//! Entries of the key/value store and the clock that their expiry is
//! measured by.
//!
//! Time is a count of nanoseconds on a monotonic clock. An entry with a
//! time to live holds the instant after which readers treat it as absent.

use vstd::prelude::*;

verus! {

/// Nanoseconds in a second.
pub const NANOS_PER_SEC: u64 = 1_000_000_000;

#[verifier::external_type_specification]
#[verifier::external_body]
pub struct ExInstant(std::time::Instant);

/// `Instant::now` of std: the present instant of the monotonic clock.
/// Nothing is claimed of it.
#[verifier::external_body]
fn instant_now() -> (t: std::time::Instant) {
    std::time::Instant::now()
}

/// `Instant::elapsed` of std, in whole nanoseconds: the time that has
/// passed since `origin`. Nothing is claimed of it.
#[verifier::external_body]
fn nanos_since(origin: &std::time::Instant) -> (n: u64) {
    origin.elapsed().as_nanos() as u64
}

#[verifier::external_type_specification]
#[verifier::external_body]
pub struct ExSystemTime(std::time::SystemTime);

/// `SystemTime::now` of std: the present time of the system clock.
/// Nothing is claimed of it.
#[verifier::external_body]
fn system_now() -> (t: std::time::SystemTime) {
    std::time::SystemTime::now()
}

/// `SystemTime::duration_since` of std, against the Unix epoch and in
/// whole milliseconds; zero where the time is before the epoch. Nothing is
/// claimed of it.
#[verifier::external_body]
fn millis_since_epoch(t: &std::time::SystemTime) -> (ms: u64) {
    t.duration_since(std::time::UNIX_EPOCH).map(|d| d.as_millis() as u64).unwrap_or(0)
}

/// The present time of the system clock, as whole milliseconds since the
/// Unix epoch.
pub(crate) fn unix_millis() -> u64 {
    let t = system_now();
    millis_since_epoch(&t)
}

/// A monotonic clock that counts nanoseconds from the moment it was made.
#[derive(Debug, Clone, Copy)]
pub struct Clock {
    origin: std::time::Instant,
}

impl Clock {
    /// A clock that starts now.
    pub fn new() -> Clock {
        Clock { origin: instant_now() }
    }

    /// Nanoseconds since this clock was made.
    pub fn now(&self) -> u64 {
        nanos_since(&self.origin)
    }
}

/// The whole seconds from `since` to `now`, or zero where `now` is the
/// earlier.
pub open spec fn seconds_between(since: u64, now: u64) -> int {
    if now >= since {
        (now - since) / (NANOS_PER_SEC as int)
    } else {
        0
    }
}

/// Computes the whole seconds from `since` to `now`.
pub fn elapsed_secs(since: u64, now: u64) -> (secs: u64)
    ensures
        secs == seconds_between(since, now),
{
    if now >= since {
        (now - since) / NANOS_PER_SEC
    } else {
        0
    }
}

/// The instant at which an entry stored at `now` with the given time to
/// live expires: none without a time to live, else `now` plus that many
/// seconds, or the end of time where that sum is beyond it.
pub open spec fn expiry(now: u64, ttl_secs: Option<u64>) -> Option<u64> {
    match ttl_secs {
        None => None,
        Some(t) => Some(
            if now + t * NANOS_PER_SEC <= u64::MAX {
                (now + t * NANOS_PER_SEC) as u64
            } else {
                u64::MAX
            },
        ),
    }
}

/// Whether an entry with this expiry is expired at `now`: it has one, and
/// `now` is after it.
pub open spec fn expired(expires_at: Option<u64>, now: u64) -> bool {
    expires_at matches Some(t) && now > t
}

/// What the store holds under a key: the value and its expiry.
pub type EntryModel = (Seq<u8>, Option<u64>);

/// The store that holds nothing.
pub open spec fn no_entries() -> Map<Seq<u8>, EntryModel> {
    Map::empty()
}

/// The value that a reader sees under `key` at `now`: that of the entry,
/// unless there is none or it is expired.
pub open spec fn live_value(entries: Map<Seq<u8>, EntryModel>, key: Seq<u8>, now: u64) -> Option<
    Seq<u8>,
> {
    if entries.contains_key(key) && !expired(entries[key].1, now) {
        Some(entries[key].0)
    } else {
        None
    }
}

/// The bytes of a value that a reader was given, if it was given one.
pub open spec fn bytes_of(r: Option<Vec<u8>>) -> Option<Seq<u8>> {
    match r {
        Some(v) => Some(v@),
        None => None,
    }
}

/// The entries that are left when those expired at `now` are removed.
pub open spec fn live_entries(entries: Map<Seq<u8>, EntryModel>, now: u64) -> Map<
    Seq<u8>,
    EntryModel,
> {
    Map::new(
        |k: Seq<u8>| entries.contains_key(k) && !expired(entries[k].1, now),
        |k: Seq<u8>| entries[k],
    )
}

/// The instant at which an entry stored at `now` expires.
pub fn expiry_at(now: u64, ttl_secs: Option<u64>) -> (r: Option<u64>)
    ensures
        r == expiry(now, ttl_secs),
{
    match ttl_secs {
        None => None,
        Some(t) => {
            match t.checked_mul(NANOS_PER_SEC) {
                None => {
                    assert(t * NANOS_PER_SEC > u64::MAX);
                    Some(u64::MAX)
                },
                Some(span) => match now.checked_add(span) {
                    None => Some(u64::MAX),
                    Some(at) => Some(at),
                },
            }
        },
    }
}

/// A value and the instant after which it is expired.
#[derive(Debug, Clone)]
pub struct Entry {
    pub value: Vec<u8>,
    pub expires_at: Option<u64>,
}

impl View for Entry {
    type V = EntryModel;

    open spec fn view(&self) -> EntryModel {
        (self.value@, self.expires_at)
    }
}

impl Entry {
    /// An entry stored at `now` that lives for `ttl_secs` seconds, or for
    /// ever where that is `None`.
    pub fn new(value: Vec<u8>, ttl_secs: Option<u64>, now: u64) -> (e: Entry)
        ensures
            e@ == (value@, expiry(now, ttl_secs)),
    {
        Entry { value, expires_at: expiry_at(now, ttl_secs) }
    }

    /// Whether this entry is still to be seen at `now`: it is not expired.
    pub fn is_live(&self, now: u64) -> (r: bool)
        ensures
            r == !expired(self.expires_at, now),
    {
        !self.is_expired(now)
    }

    /// A copy of this entry.
    pub fn duplicate(&self) -> (e: Entry)
        ensures
            e@ == self@,
    {
        Entry { value: self.value.clone(), expires_at: self.expires_at }
    }

    /// Whether this entry is expired at `now`.
    pub fn is_expired(&self, now: u64) -> (r: bool)
        ensures
            r == expired(self.expires_at, now),
    {
        match self.expires_at {
            Some(t) => now > t,
            None => false,
        }
    }
}

/// Removing the expired entries leaves no more entries than there were,
/// and changes nothing for a reader.
pub proof fn lemma_live_entries(entries: Map<Seq<u8>, EntryModel>, now: u64)
    requires
        entries.dom().finite(),
    ensures
        live_entries(entries, now).dom().finite(),
        live_entries(entries, now).len() <= entries.len(),
        forall|k: Seq<u8>| live_value(live_entries(entries, now), k, now) == live_value(entries, k,
            now),
{
    let live = live_entries(entries, now);
    assert(live.dom().subset_of(entries.dom()));
    vstd::set_lib::lemma_len_subset(live.dom(), entries.dom());
}

/// What is stored is read back until its time to live is over, and not
/// after: a value stored at `set_time` is seen at `read_time` if it has no
/// time to live or `read_time` is no later than `set_time` plus its time
/// to live, and is absent at every later instant.
pub proof fn lemma_ttl_correctness(
    entries: Map<Seq<u8>, EntryModel>,
    key: Seq<u8>,
    value: Seq<u8>,
    ttl_secs: Option<u64>,
    set_time: u64,
    read_time: u64,
)
    ensures
        ({
            let after = entries.insert(key, (value, expiry(set_time, ttl_secs)));
            match ttl_secs {
                None => live_value(after, key, read_time) == Some(value),
                Some(t) => if read_time <= set_time + t * NANOS_PER_SEC {
                    live_value(after, key, read_time) == Some(value)
                } else {
                    live_value(after, key, read_time) == None::<Seq<u8>>
                },
            }
        }),
{
}

} // verus!
