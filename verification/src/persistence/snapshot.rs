//! Snapshots: the whole store written as one byte string, and read back.
//!
//! ```text
//! magic "CELS"            4 bytes
//! version                 1 byte
//! creation time, ms       8 bytes
//! entry count             4 bytes
//! entries                 [keylen 4][key][vallen 4][value][expiry ms 8]
//! ```
//!
//! All integers are little-endian, unlike those of the wire protocol. An
//! expiry of zero stands for none.

use vstd::prelude::*;
use crate::text::{decimal, decimal_text};
use crate::wire::{
    copy_range, get_u32_le, get_u64_le, le_u32_at, le_u64_at, lemma_le_u32_window,
    lemma_le_u64_window, put_slice, put_u32_le, put_u64_le, u32_le, u64_le,
};

verus! {

/// The version of the snapshot format.
pub const SNAPSHOT_VERSION: u8 = 1;

/// The bytes before the entries: magic, version, time and count.
pub const SNAPSHOT_HEADER_SIZE: usize = 17;

/// The magic bytes of a snapshot: "CELS".
pub open spec fn snapshot_magic() -> Seq<u8> {
    seq![0x43u8, 0x45u8, 0x4Cu8, 0x53u8]
}

/// Snapshot configuration.
#[derive(Debug, Clone)]
pub struct SnapshotConfig {
    /// Directory of the snapshot files.
    pub dir: String,
    /// Seconds between two snapshots (0 = never).
    pub interval_secs: u64,
    /// Greatest number of snapshots that are kept.
    pub max_snapshots: usize,
    /// Whether snapshots are compressed.
    pub compress: bool,
}

impl Default for SnapshotConfig {
    /// Under `./data/snapshots`, every five minutes, five kept.
    fn default() -> (c: SnapshotConfig)
        ensures
            c.dir@ == "./data/snapshots"@,
            c.interval_secs == 300,
            c.max_snapshots == 5,
            !c.compress,
    {
        SnapshotConfig {
            dir: String::from_str("./data/snapshots"),
            interval_secs: 300,
            max_snapshots: 5,
            compress: false,
        }
    }
}

impl SnapshotConfig {
    /// The same configuration with this directory.
    pub fn with_dir(self, dir: &str) -> (c: SnapshotConfig)
        ensures
            c.dir@ == dir@,
            c.interval_secs == self.interval_secs,
            c.max_snapshots == self.max_snapshots,
            c.compress == self.compress,
    {
        let mut c = self;
        c.dir = String::from_str(dir);
        c
    }

    /// The same configuration with this interval in seconds.
    pub fn with_interval(self, secs: u64) -> (c: SnapshotConfig)
        ensures
            c.interval_secs == secs,
            c.dir == self.dir,
            c.max_snapshots == self.max_snapshots,
            c.compress == self.compress,
    {
        let mut c = self;
        c.interval_secs = secs;
        c
    }
}

/// One entry of a snapshot.
#[derive(Debug, Clone, PartialEq, Eq)]
pub struct SnapshotEntry {
    pub key: Vec<u8>,
    pub value: Vec<u8>,
    /// When the entry expires, in milliseconds since the Unix epoch.
    pub expires_at_ms: Option<u64>,
}

/// An entry of a snapshot as a value.
pub struct SnapshotEntryModel {
    pub key: Seq<u8>,
    pub value: Seq<u8>,
    pub expires_at_ms: Option<u64>,
}

impl View for SnapshotEntry {
    type V = SnapshotEntryModel;

    open spec fn view(&self) -> SnapshotEntryModel {
        SnapshotEntryModel {
            key: self.key@,
            value: self.value@,
            expires_at_ms: self.expires_at_ms,
        }
    }
}

impl SnapshotEntryModel {
    /// The bytes of this entry.
    pub open spec fn bytes(self) -> Seq<u8> {
        u32_le(self.key.len() as u32) + self.key + u32_le(self.value.len() as u32) + self.value
            + u64_le(
            match self.expires_at_ms {
                Some(t) => t,
                None => 0,
            },
        )
    }

    /// The lengths fit their fields, and the expiry is not the zero that
    /// stands for none.
    pub open spec fn wf(self) -> bool {
        self.key.len() <= u32::MAX && self.value.len() <= u32::MAX && self.expires_at_ms != Some(
            0u64,
        )
    }
}

/// The entries that a list holds.
pub open spec fn entries_view(entries: Seq<SnapshotEntry>) -> Seq<SnapshotEntryModel> {
    Seq::new(entries.len(), |i: int| entries[i]@)
}

/// The bytes of the first `n` entries, one after the other.
pub open spec fn entries_bytes(entries: Seq<SnapshotEntryModel>, n: int) -> Seq<u8>
    decreases n,
{
    if n <= 0 {
        Seq::empty()
    } else {
        entries_bytes(entries, n - 1) + entries[n - 1].bytes()
    }
}

/// The bytes of a snapshot made at `timestamp_ms`.
pub open spec fn snapshot_bytes(timestamp_ms: u64, entries: Seq<SnapshotEntryModel>) -> Seq<u8> {
    snapshot_magic() + seq![SNAPSHOT_VERSION] + u64_le(timestamp_ms) + u32_le(
        entries.len() as u32,
    ) + entries_bytes(entries, entries.len() as int)
}

/// Why a byte string was refused as a snapshot.
#[derive(Debug, Clone, Copy, PartialEq, Eq, Structural)]
pub enum SnapshotError {
    /// The first four bytes are not the magic.
    InvalidMagic,
    /// The version is not the one that this library reads.
    UnsupportedVersion(u8),
    /// The bytes end before the snapshot does.
    Truncated,
}

/// The entry at `at`, and the position behind it.
pub open spec fn take_entry(s: Seq<u8>, at: int) -> Option<(SnapshotEntryModel, int)> {
    if s.len() - at < 4 {
        None
    } else {
        let klen = le_u32_at(s, at) as int;
        if s.len() - at - 4 - klen < 4 {
            None
        } else {
            let vlen = le_u32_at(s, at + 4 + klen) as int;
            if s.len() - at - 8 - klen - vlen < 8 {
                None
            } else {
                let expiry = le_u64_at(s, at + 8 + klen + vlen);
                Some(
                    (
                        SnapshotEntryModel {
                            key: s.subrange(at + 4, at + 4 + klen),
                            value: s.subrange(at + 8 + klen, at + 8 + klen + vlen),
                            expires_at_ms: if expiry > 0 {
                                Some(expiry)
                            } else {
                                None
                            },
                        },
                        at + 16 + klen + vlen,
                    ),
                )
            }
        }
    }
}

/// The `count` entries from `at` on.
pub open spec fn take_entries(s: Seq<u8>, at: int, count: nat) -> Option<Seq<SnapshotEntryModel>>
    decreases count,
{
    if count == 0 {
        Some(Seq::empty())
    } else {
        match take_entry(s, at) {
            None => None,
            Some((first, next)) => match take_entries(s, next, (count - 1) as nat) {
                None => None,
                Some(others) => Some(seq![first] + others),
            },
        }
    }
}

/// The entries that a snapshot holds.
pub open spec fn parse_snapshot(s: Seq<u8>) -> Result<Seq<SnapshotEntryModel>, SnapshotError> {
    if s.len() < 4 {
        Err(SnapshotError::Truncated)
    } else if s.subrange(0, 4) != snapshot_magic() {
        Err(SnapshotError::InvalidMagic)
    } else if s.len() < 5 {
        Err(SnapshotError::Truncated)
    } else if s[4] != SNAPSHOT_VERSION {
        Err(SnapshotError::UnsupportedVersion(s[4]))
    } else if s.len() < SNAPSHOT_HEADER_SIZE {
        Err(SnapshotError::Truncated)
    } else {
        match take_entries(s, SNAPSHOT_HEADER_SIZE as int, le_u32_at(s, 13) as nat) {
            Some(entries) => Ok(entries),
            None => Err(SnapshotError::Truncated),
        }
    }
}

/// Where the bytes at `at` are those of an entry, the entry is read back.
pub proof fn lemma_entry_window(s: Seq<u8>, at: int, e: SnapshotEntryModel)
    requires
        e.wf(),
        0 <= at,
        at + e.bytes().len() <= s.len(),
        s.subrange(at, at + e.bytes().len()) == e.bytes(),
    ensures
        e.bytes().len() == 16 + e.key.len() + e.value.len(),
        take_entry(s, at) == Some((e, at + 16 + e.key.len() + e.value.len())),
{
    let b = e.bytes();
    let klen = e.key.len() as int;
    let vlen = e.value.len() as int;
    let t: u64 = match e.expires_at_ms {
        Some(t) => t,
        None => 0,
    };
    assert(b.len() == 16 + klen + vlen);
    let w = s.subrange(at, at + b.len());
    assert(s.subrange(at, at + 4) =~= w.subrange(0, 4));
    assert(w.subrange(0, 4) =~= u32_le(klen as u32));
    lemma_le_u32_window(s, at, klen as u32);
    assert(s.subrange(at + 4, at + 4 + klen) =~= w.subrange(4, 4 + klen));
    assert(w.subrange(4, 4 + klen) =~= e.key);
    assert(s.subrange(at + 4 + klen, at + 8 + klen) =~= w.subrange(4 + klen, 8 + klen));
    assert(w.subrange(4 + klen, 8 + klen) =~= u32_le(vlen as u32));
    lemma_le_u32_window(s, at + 4 + klen, vlen as u32);
    assert(s.subrange(at + 8 + klen, at + 8 + klen + vlen) =~= w.subrange(
        8 + klen,
        8 + klen + vlen,
    ));
    assert(w.subrange(8 + klen, 8 + klen + vlen) =~= e.value);
    assert(s.subrange(at + 8 + klen + vlen, at + 16 + klen + vlen) =~= w.subrange(
        8 + klen + vlen,
        16 + klen + vlen,
    ));
    assert(w.subrange(8 + klen + vlen, 16 + klen + vlen) =~= u64_le(t));
    lemma_le_u64_window(s, at + 8 + klen + vlen, t);
}

/// The bytes of a list of entries are those of the first, then those of
/// the rest.
proof fn lemma_entries_split(entries: Seq<SnapshotEntryModel>, n: int)
    requires
        1 <= n <= entries.len(),
    ensures
        entries_bytes(entries, n) == entries[0].bytes() + entries_bytes(entries.skip(1), n - 1),
    decreases n,
{
    if n == 1 {
        assert(entries_bytes(entries, 0) =~= Seq::<u8>::empty());
        assert(entries_bytes(entries.skip(1), 0) =~= Seq::<u8>::empty());
        assert(entries_bytes(entries, 1) =~= entries[0].bytes());
        assert(entries[0].bytes() + Seq::<u8>::empty() =~= entries[0].bytes());
    } else {
        lemma_entries_split(entries, n - 1);
        assert(entries.skip(1)[n - 2] == entries[n - 1]);
        assert(entries_bytes(entries, n) =~= entries[0].bytes() + entries_bytes(
            entries.skip(1),
            n - 1,
        ));
    }
}

/// Where the bytes at `at` are those of a list of entries, the list is
/// read back.
pub proof fn lemma_entries_window(s: Seq<u8>, at: int, entries: Seq<SnapshotEntryModel>)
    requires
        forall|i: int| 0 <= i < entries.len() ==> (#[trigger] entries[i]).wf(),
        0 <= at,
        at + entries_bytes(entries, entries.len() as int).len() <= s.len(),
        s.subrange(at, at + entries_bytes(entries, entries.len() as int).len()) == entries_bytes(
            entries,
            entries.len() as int,
        ),
    ensures
        take_entries(s, at, entries.len()) == Some(entries),
    decreases entries.len(),
{
    if entries.len() == 0 {
        assert(entries =~= Seq::<SnapshotEntryModel>::empty());
    } else {
        let n = entries.len() as int;
        let all = entries_bytes(entries, n);
        let first = entries[0];
        let tail = entries.skip(1);
        lemma_entries_split(entries, n);
        let flen = first.bytes().len() as int;
        let w = s.subrange(at, at + all.len());
        assert(first.wf());
        assert(s.subrange(at, at + flen) =~= w.subrange(0, flen));
        assert(w.subrange(0, flen) =~= first.bytes());
        lemma_entry_window(s, at, first);
        let rest = entries_bytes(tail, n - 1);
        assert(s.subrange(at + flen, at + flen + rest.len()) =~= w.subrange(
            flen,
            all.len() as int,
        ));
        assert(w.subrange(flen, all.len() as int) =~= rest);
        assert forall|i: int| 0 <= i < tail.len() implies (#[trigger] tail[i]).wf() by {
            assert(tail[i] == entries[i + 1]);
        }
        lemma_entries_window(s, at + flen, tail);
        assert(seq![first] + tail =~= entries);
        assert(take_entries(s, at + flen, (entries.len() - 1) as nat) == take_entries(
            s,
            at + flen,
            tail.len(),
        ));
    }
}

/// A snapshot that was written is read back as it was: for every list of
/// entries whose count and lengths fit their fields.
pub proof fn lemma_snapshot_roundtrip(timestamp_ms: u64, entries: Seq<SnapshotEntryModel>)
    requires
        entries.len() <= u32::MAX,
        forall|i: int| 0 <= i < entries.len() ==> (#[trigger] entries[i]).wf(),
    ensures
        parse_snapshot(snapshot_bytes(timestamp_ms, entries)) == Ok::<
            Seq<SnapshotEntryModel>,
            SnapshotError,
        >(entries),
{
    let s = snapshot_bytes(timestamp_ms, entries);
    let body = entries_bytes(entries, entries.len() as int);
    assert(s.len() == 17 + body.len());
    assert(s.subrange(0, 4) =~= snapshot_magic());
    assert(s[4] == SNAPSHOT_VERSION);
    assert(s.subrange(13, 17) =~= u32_le(entries.len() as u32));
    lemma_le_u32_window(s, 13, entries.len() as u32);
    assert(s.subrange(17, 17 + body.len() as int) =~= body);
    lemma_entries_window(s, 17, entries);
}

/// Snapshot writer and reader.
pub struct Snapshot {
    config: SnapshotConfig,
}

impl Snapshot {
    /// The configuration.
    pub closed spec fn spec_config(&self) -> SnapshotConfig {
        self.config
    }

    /// A snapshot manager with this configuration.
    pub fn new(config: SnapshotConfig) -> (s: Snapshot)
        ensures
            s.spec_config() == config,
    {
        Snapshot { config }
    }

    /// The configuration.
    pub fn config(&self) -> (c: &SnapshotConfig)
        ensures
            *c == self.spec_config(),
    {
        &self.config
    }

    /// The name of the file of a snapshot made at `timestamp_ms`.
    pub fn snapshot_filename(&self, timestamp_ms: u64) -> (name: String)
        ensures
            name@ == "snapshot_"@ + decimal_text(timestamp_ms as nat) + ".cel"@,
    {
        let mut name = String::from_str("snapshot_");
        let ts = decimal(timestamp_ms);
        name.append(ts.as_str());
        name.append(".cel");
        name
    }

    /// The bytes of a snapshot of `entries` made at `timestamp_ms`.
    pub fn save(&self, entries: &Vec<SnapshotEntry>, timestamp_ms: u64) -> (bytes: Vec<u8>)
        ensures
            bytes@ == snapshot_bytes(timestamp_ms, entries_view(entries@)),
    {
        let mut out: Vec<u8> = Vec::new();
        out.push(0x43);
        out.push(0x45);
        out.push(0x4C);
        out.push(0x53);
        out.push(SNAPSHOT_VERSION);
        put_u64_le(&mut out, timestamp_ms);
        put_u32_le(&mut out, entries.len() as u32);
        let ghost head = out@;
        let ghost all = entries_view(entries@);
        assert(head =~= snapshot_magic() + seq![SNAPSHOT_VERSION] + u64_le(timestamp_ms) + u32_le(
            all.len() as u32,
        ));
        let mut i: usize = 0;
        assert(out@ =~= head + entries_bytes(all, 0));
        while i < entries.len()
            invariant
                i <= entries@.len(),
                all == entries_view(entries@),
                out@ == head + entries_bytes(all, i as int),
            decreases entries@.len() - i,
        {
            let e = &entries[i];
            put_u32_le(&mut out, e.key.len() as u32);
            put_slice(&mut out, &e.key);
            put_u32_le(&mut out, e.value.len() as u32);
            put_slice(&mut out, &e.value);
            let expiry: u64 = match e.expires_at_ms {
                Some(t) => t,
                None => 0,
            };
            put_u64_le(&mut out, expiry);
            proof {
                assert(all[i as int] == entries@[i as int]@);
                assert(out@ =~= head + entries_bytes(all, i + 1));
            }
            i += 1;
        }
        out
    }

    /// Reads the entries of a snapshot.
    ///
    /// Fails where the magic or the version is wrong, or where the bytes
    /// end before the header, an entry's length, an entry or its expiry.
    pub fn load(&self, bytes: &Vec<u8>) -> (r: Result<Vec<SnapshotEntry>, SnapshotError>)
        ensures
            match parse_snapshot(bytes@) {
                Ok(entries) => r matches Ok(got) && entries_view(got@) == entries,
                Err(e) => r == Err::<Vec<SnapshotEntry>, SnapshotError>(e),
            },
    {
        if bytes.len() < 4 {
            return Err(SnapshotError::Truncated);
        }
        if bytes[0] != 0x43 || bytes[1] != 0x45 || bytes[2] != 0x4C || bytes[3] != 0x53 {
            assert(bytes@.subrange(0, 4) != snapshot_magic()) by {
                let m = bytes@.subrange(0, 4);
                assert(m[0] == bytes@[0] && m[1] == bytes@[1] && m[2] == bytes@[2] && m[3]
                    == bytes@[3]);
            }
            return Err(SnapshotError::InvalidMagic);
        }
        assert(bytes@.subrange(0, 4) =~= snapshot_magic());
        if bytes.len() < 5 {
            return Err(SnapshotError::Truncated);
        }
        if bytes[4] != SNAPSHOT_VERSION {
            return Err(SnapshotError::UnsupportedVersion(bytes[4]));
        }
        if bytes.len() < SNAPSHOT_HEADER_SIZE {
            return Err(SnapshotError::Truncated);
        }
        let count = get_u32_le(bytes, 13);
        let ghost goal = take_entries(bytes@, 17, count as nat);
        let mut entries: Vec<SnapshotEntry> = Vec::new();
        let mut at: usize = SNAPSHOT_HEADER_SIZE;
        let mut i: u32 = 0;
        assert(entries_view(entries@) =~= Seq::<SnapshotEntryModel>::empty());
        assert(entries_view(entries@) + goal->0 =~= goal->0);
        while i < count
            invariant
                i <= count,
                at <= bytes@.len(),
                goal == take_entries(bytes@, 17, count as nat),
                parse_snapshot(bytes@) == match goal {
                    Some(all) => Ok::<Seq<SnapshotEntryModel>, SnapshotError>(all),
                    None => Err(SnapshotError::Truncated),
                },
                goal == match take_entries(bytes@, at as int, (count - i) as nat) {
                    Some(rest) => Some(entries_view(entries@) + rest),
                    None => None,
                },
            decreases count - i,
        {
            let ghost here = at as int;
            let ghost before = entries_view(entries@);
            assert(count - i > 0);
            if bytes.len() - at < 4 {
                return Err(SnapshotError::Truncated);
            }
            let klen = get_u32_le(bytes, at) as usize;
            if bytes.len() - at - 4 < klen || bytes.len() - at - 4 - klen < 4 {
                return Err(SnapshotError::Truncated);
            }
            let key = copy_range(bytes, at + 4, klen);
            let vlen = get_u32_le(bytes, at + 4 + klen) as usize;
            if bytes.len() - at - 8 - klen < vlen || bytes.len() - at - 8 - klen - vlen < 8 {
                return Err(SnapshotError::Truncated);
            }
            let value = copy_range(bytes, at + 8 + klen, vlen);
            let expiry = get_u64_le(bytes, at + 8 + klen + vlen);
            let entry = SnapshotEntry {
                key,
                value,
                expires_at_ms: if expiry > 0 {
                    Some(expiry)
                } else {
                    None
                },
            };
            let ghost model = entry@;
            entries.push(entry);
            at = at + 16 + klen + vlen;
            proof {
                assert(take_entry(bytes@, here) == Some((model, at as int)));
                assert(entries_view(entries@) =~= before + seq![model]);
                let rest = take_entries(bytes@, at as int, (count - i - 1) as nat);
                if let Some(r) = rest {
                    assert(before + (seq![model] + r) =~= entries_view(entries@) + r);
                }
            }
            i += 1;
        }
        proof {
            assert(entries_view(entries@) + Seq::<SnapshotEntryModel>::empty() =~= entries_view(
                entries@,
            ));
        }
        Ok(entries)
    }

    /// The snapshot file that was modified last, among files given by
    /// name, time of modification and whether they are snapshot files:
    /// the first of the snapshot files with the latest time.
    pub fn latest_of(files: &Vec<(String, u64, bool)>) -> (r: Option<usize>)
        ensures
            match r {
                Some(i) => i < files@.len() && files@[i as int].2 && (forall|j: int|
                    0 <= j < files@.len() && (#[trigger] files@[j]).2 ==> files@[j].1
                        <= files@[i as int].1) && (forall|j: int|
                    0 <= j < i && (#[trigger] files@[j]).2 ==> files@[j].1 < files@[i as int].1),
                None => forall|j: int| 0 <= j < files@.len() ==> !(#[trigger] files@[j]).2,
            },
    {
        let mut best: Option<usize> = None;
        let mut i: usize = 0;
        while i < files.len()
            invariant
                i <= files@.len(),
                match best {
                    Some(b) => b < i && files@[b as int].2 && (forall|j: int|
                        0 <= j < i && (#[trigger] files@[j]).2 ==> files@[j].1
                            <= files@[b as int].1) && (forall|j: int|
                        0 <= j < b && (#[trigger] files@[j]).2 ==> files@[j].1
                            < files@[b as int].1),
                    None => forall|j: int| 0 <= j < i ==> !(#[trigger] files@[j]).2,
                },
            decreases files@.len() - i,
        {
            if files[i].2 {
                let newer = match best {
                    None => true,
                    Some(b) => files[i].1 > files[b].1,
                };
                if newer {
                    best = Some(i);
                }
            }
            i += 1;
        }
        best
    }

    /// The snapshot files to remove so that no more than `keep` stay:
    /// all but the `keep` that were modified last, the newer ones first.
    pub fn surplus_of(files: &Vec<(String, u64, bool)>, keep: usize) -> (r: Vec<usize>)
        ensures
            r@.len() == surplus(files@, keep as int).len(),
            forall|i: int| 0 <= i < r@.len() ==> #[trigger] r@[i] == surplus(files@, keep as int)[i],
    {
        let mut sorted: Vec<usize> = Vec::new();
        let mut p: usize = 0;
        assert(positions(sorted@) =~= newest_first(files@, 0));
        while p < files.len()
            invariant
                p <= files@.len(),
                sorted@.len() <= p,
                forall|i: int| 0 <= i < sorted@.len() ==> (#[trigger] sorted@[i]) < p,
                positions(sorted@) == newest_first(files@, p as int),
            decreases files@.len() - p,
        {
            if files[p].2 {
                let ghost before = positions(sorted@);
                let age = files[p].1;
                let mut at: usize = 0;
                while at < sorted.len() && files[sorted[at]].1 >= age
                    invariant
                        at <= sorted@.len(),
                        p < files@.len(),
                        age == files@[p as int].1,
                        forall|i: int| 0 <= i < sorted@.len() ==> (#[trigger] sorted@[i]) < p,
                        forall|j: int|
                            0 <= j < at ==> files@[(#[trigger] sorted@[j]) as int].1 >= age,
                    decreases sorted@.len() - at,
                {
                    at += 1;
                }
                proof {
                    assert forall|j: int| 0 <= j < at implies files@[before[j]].1
                        >= files@[p as int].1 by {
                        assert(before[j] == sorted@[j] as int);
                    }
                    if at < sorted@.len() {
                        assert(before[at as int] == sorted@[at as int] as int);
                    }
                    lemma_insert_by_age(files@, before, p as int, at as int);
                }
                sorted.insert(at, p);
                assert(positions(sorted@) =~= before.insert(at as int, p as int));
            }
            p += 1;
        }
        let mut out: Vec<usize> = Vec::new();
        let mut i: usize = keep;
        let ghost all = newest_first(files@, files@.len() as int);
        assert(all.len() == sorted@.len());
        while i < sorted.len()
            invariant
                keep <= i,
                all == positions(sorted@),
                all.len() == sorted@.len(),
                i <= sorted@.len() ==> out@.len() == i - keep,
                i > sorted@.len() ==> out@.len() == 0 && i == keep,
                forall|j: int| 0 <= j < out@.len() ==> #[trigger] out@[j] == all[keep + j],
            decreases sorted@.len() - i,
        {
            assert(all[i as int] == sorted@[i as int] as int);
            out.push(sorted[i]);
            i += 1;
        }
        out
    }
}

/// The positions that a list holds.
pub open spec fn positions(list: Seq<usize>) -> Seq<int> {
    Seq::new(list.len(), |i: int| list[i] as int)
}

/// A list of positions with one more, put behind every position whose
/// file was modified no earlier: where the list has the newer files
/// first, so has the result, and the new position comes last among
/// equals.
pub open spec fn insert_by_age(files: Seq<(String, u64, bool)>, sorted: Seq<int>, p: int) -> Seq<
    int,
>
    decreases sorted.len(),
{
    if sorted.len() == 0 {
        seq![p]
    } else if files[sorted[0]].1 < files[p].1 {
        seq![p] + sorted
    } else {
        seq![sorted[0]] + insert_by_age(files, sorted.skip(1), p)
    }
}

/// The positions of the snapshot files among the first `n` files, those
/// modified later first, earlier positions first among equals.
pub open spec fn newest_first(files: Seq<(String, u64, bool)>, n: int) -> Seq<int>
    decreases n,
{
    if n <= 0 {
        Seq::empty()
    } else if files[n - 1].2 {
        insert_by_age(files, newest_first(files, n - 1), n - 1)
    } else {
        newest_first(files, n - 1)
    }
}

/// The positions of the snapshot files that are beyond the `keep` that
/// were modified last.
pub open spec fn surplus(files: Seq<(String, u64, bool)>, keep: int) -> Seq<int> {
    let all = newest_first(files, files.len() as int);
    if keep >= all.len() {
        Seq::empty()
    } else {
        all.skip(keep)
    }
}

/// Putting a position at the first place whose file is older is the
/// insertion by age.
proof fn lemma_insert_by_age(files: Seq<(String, u64, bool)>, s: Seq<int>, p: int, at: int)
    requires
        0 <= at <= s.len(),
        forall|j: int| 0 <= j < at ==> files[s[j]].1 >= files[p].1,
        at < s.len() ==> files[s[at]].1 < files[p].1,
    ensures
        insert_by_age(files, s, p) == s.insert(at, p),
    decreases s.len(),
{
    if s.len() == 0 {
        assert(s.insert(0, p) =~= seq![p]);
    } else if at == 0 {
        assert(s.insert(0, p) =~= seq![p] + s);
    } else {
        let tail = s.skip(1);
        assert forall|j: int| 0 <= j < at - 1 implies files[tail[j]].1 >= files[p].1 by {
            assert(tail[j] == s[j + 1]);
        }
        lemma_insert_by_age(files, tail, p, at - 1);
        assert(s.insert(at, p) =~= seq![s[0]] + tail.insert(at - 1, p));
    }
}

} // verus!
