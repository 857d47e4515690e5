//! Append-only operation log: every write as one frame of bytes.
//!
//! ```text
//! frame   [total length 4][entry]
//! entry   [op 1][time ms 8][keylen 4][key][vallen 4][value][ttl ms 8]
//! ```
//!
//! All integers are little-endian. The op is 1 for a set and 2 for a
//! delete; a delete has an empty value; a time to live of zero stands for
//! none.

use vstd::prelude::*;
use crate::storage::entry::unix_millis;
use crate::wire::{put_slice, put_u32_le, put_u64_le, u32_le, u64_le};

verus! {

/// When the log is synced to disk.
#[derive(Debug, Clone, Copy, PartialEq, Eq, Structural)]
pub enum AofSyncMode {
    /// Never by the server: fastest, least safe.
    No,
    /// Every second.
    EverySecond,
    /// On every write: slowest, safest.
    Always,
}

/// Configuration of the log.
#[derive(Debug, Clone)]
pub struct AofConfig {
    /// Path of the log file.
    pub path: String,
    /// When the log is synced.
    pub sync_mode: AofSyncMode,
    /// Number of entries after which the log is due for compaction.
    pub rewrite_threshold: usize,
}

impl Default for AofConfig {
    /// `./data/celrix.aof`, synced every second, compaction after 100,000
    /// entries.
    fn default() -> (c: AofConfig)
        ensures
            c.path@ == "./data/celrix.aof"@,
            c.sync_mode == AofSyncMode::EverySecond,
            c.rewrite_threshold == 100000,
    {
        AofConfig {
            path: String::from_str("./data/celrix.aof"),
            sync_mode: AofSyncMode::EverySecond,
            rewrite_threshold: 100000,
        }
    }
}

impl AofConfig {
    /// The same configuration with this path.
    pub fn with_path(self, path: &str) -> (c: AofConfig)
        ensures
            c.path@ == path@,
            c.sync_mode == self.sync_mode,
            c.rewrite_threshold == self.rewrite_threshold,
    {
        let mut c = self;
        c.path = String::from_str(path);
        c
    }

    /// The same configuration with this way of flushing.
    pub fn with_sync_mode(self, mode: AofSyncMode) -> (c: AofConfig)
        ensures
            c.sync_mode == mode,
            c.path == self.path,
            c.rewrite_threshold == self.rewrite_threshold,
    {
        let mut c = self;
        c.sync_mode = mode;
        c
    }
}

/// Kinds of logged operations.
#[derive(Debug, Clone, Copy, PartialEq, Eq, Structural)]
pub enum AofOpType {
    SetKey,
    Del,
}

impl AofOpType {
    /// The byte that stands for this kind in the log.
    pub open spec fn spec_code(self) -> u8 {
        match self {
            AofOpType::SetKey => 1,
            AofOpType::Del => 2,
        }
    }

    /// The byte of this kind.
    pub fn code(self) -> (b: u8)
        ensures
            b == self.spec_code(),
    {
        match self {
            AofOpType::SetKey => 1,
            AofOpType::Del => 2,
        }
    }
}

/// A logged operation.
#[derive(Debug, Clone)]
pub struct AofEntry {
    pub op: AofOpType,
    pub key: Vec<u8>,
    pub value: Option<Vec<u8>>,
    pub ttl_ms: Option<u64>,
    /// Milliseconds since the Unix epoch.
    pub timestamp_ms: u64,
}

/// A logged operation as a value.
pub struct AofEntryModel {
    pub op: AofOpType,
    pub key: Seq<u8>,
    pub value: Option<Seq<u8>>,
    pub ttl_ms: Option<u64>,
    pub timestamp_ms: u64,
}

impl View for AofEntry {
    type V = AofEntryModel;

    open spec fn view(&self) -> AofEntryModel {
        AofEntryModel {
            op: self.op,
            key: self.key@,
            value: match self.value {
                Some(v) => Some(v@),
                None => None,
            },
            ttl_ms: self.ttl_ms,
            timestamp_ms: self.timestamp_ms,
        }
    }
}

impl AofEntryModel {
    /// The bytes of this entry.
    pub open spec fn bytes(self) -> Seq<u8> {
        seq![self.op.spec_code()] + u64_le(self.timestamp_ms) + u32_le(self.key.len() as u32)
            + self.key + (match self.value {
            Some(v) => u32_le(v.len() as u32) + v,
            None => u32_le(0),
        }) + u64_le(
            match self.ttl_ms {
                Some(t) => t,
                None => 0,
            },
        )
    }

    /// The frame of this entry: its bytes behind their number.
    pub open spec fn frame(self) -> Seq<u8> {
        u32_le(self.bytes().len() as u32) + self.bytes()
    }
}

impl AofEntry {
    /// The entry of a set at `timestamp_ms`.
    pub fn set_at(key: Vec<u8>, value: Vec<u8>, ttl_ms: Option<u64>, timestamp_ms: u64) -> (e:
        AofEntry)
        ensures
            e@ == (AofEntryModel {
                op: AofOpType::SetKey,
                key: key@,
                value: Some(value@),
                ttl_ms,
                timestamp_ms,
            }),
    {
        AofEntry { op: AofOpType::SetKey, key, value: Some(value), ttl_ms, timestamp_ms }
    }

    /// The entry of a set now.
    pub fn set(key: Vec<u8>, value: Vec<u8>, ttl_ms: Option<u64>) -> (e: AofEntry)
        ensures
            e@ == (AofEntryModel {
                op: AofOpType::SetKey,
                key: key@,
                value: Some(value@),
                ttl_ms,
                timestamp_ms: e.timestamp_ms,
            }),
    {
        AofEntry::set_at(key, value, ttl_ms, unix_millis())
    }

    /// The entry of a delete at `timestamp_ms`.
    pub fn del_at(key: Vec<u8>, timestamp_ms: u64) -> (e: AofEntry)
        ensures
            e@ == (AofEntryModel {
                op: AofOpType::Del,
                key: key@,
                value: None,
                ttl_ms: None,
                timestamp_ms,
            }),
    {
        AofEntry { op: AofOpType::Del, key, value: None, ttl_ms: None, timestamp_ms }
    }

    /// The entry of a delete now.
    pub fn del(key: Vec<u8>) -> (e: AofEntry)
        ensures
            e@ == (AofEntryModel {
                op: AofOpType::Del,
                key: key@,
                value: None,
                ttl_ms: None,
                timestamp_ms: e.timestamp_ms,
            }),
    {
        AofEntry::del_at(key, unix_millis())
    }

    /// The bytes of this entry.
    pub fn encode(&self) -> (bytes: Vec<u8>)
        ensures
            bytes@ == self@.bytes(),
    {
        let mut buf: Vec<u8> = Vec::new();
        buf.push(self.op.code());
        put_u64_le(&mut buf, self.timestamp_ms);
        put_u32_le(&mut buf, self.key.len() as u32);
        put_slice(&mut buf, &self.key);
        match &self.value {
            Some(v) => {
                put_u32_le(&mut buf, v.len() as u32);
                put_slice(&mut buf, v);
            },
            None => {
                put_u32_le(&mut buf, 0);
            },
        }
        let ttl: u64 = match self.ttl_ms {
            Some(t) => t,
            None => 0,
        };
        put_u64_le(&mut buf, ttl);
        assert(buf@ =~= self@.bytes());
        buf
    }

    /// The frame of this entry: its bytes behind their number.
    pub fn frame(&self) -> (bytes: Vec<u8>)
        ensures
            bytes@ == self@.frame(),
    {
        let encoded = self.encode();
        let mut out: Vec<u8> = Vec::new();
        put_u32_le(&mut out, encoded.len() as u32);
        put_slice(&mut out, &encoded);
        assert(out@ =~= self@.frame());
        out
    }
}

/// What the writer decides for one entry: the bytes to append to the
/// file, and whether to flush after them.
pub struct Appended {
    pub bytes: Vec<u8>,
    pub flush: bool,
}

/// Writer of the log: it frames the entries, counts them, and says when
/// to flush and when the log is due for compaction. The file is written
/// by the program around the library.
pub struct AofWriter {
    config: AofConfig,
    entry_count: usize,
}

impl AofWriter {
    /// The configuration.
    pub closed spec fn spec_config(&self) -> AofConfig {
        self.config
    }

    /// The number of entries that were appended, up to the greatest number
    /// that the counter holds.
    pub closed spec fn spec_entry_count(&self) -> usize {
        self.entry_count
    }

    /// A writer that has appended nothing.
    pub fn new(config: AofConfig) -> (w: AofWriter)
        ensures
            w.spec_config() == config,
            w.spec_entry_count() == 0,
    {
        AofWriter { config, entry_count: 0 }
    }

    /// Frames an entry and counts it. The caller appends the bytes to the
    /// file, and flushes where the log is synced on every write.
    pub fn append(&mut self, entry: &AofEntry) -> (r: Appended)
        ensures
            r.bytes@ == entry@.frame(),
            r.flush == (old(self).spec_config().sync_mode == AofSyncMode::Always),
            final(self).spec_config() == old(self).spec_config(),
            final(self).spec_entry_count() == if old(self).spec_entry_count() < usize::MAX {
                (old(self).spec_entry_count() + 1) as usize
            } else {
                usize::MAX
            },
    {
        let bytes = entry.frame();
        if self.entry_count < usize::MAX {
            self.entry_count += 1;
        }
        Appended { bytes, flush: self.config.sync_mode == AofSyncMode::Always }
    }

    /// Frames and counts a set.
    pub fn log_set(&mut self, key: Vec<u8>, value: Vec<u8>, ttl_ms: Option<u64>) -> (r: Appended)
        ensures
            r.flush == (old(self).spec_config().sync_mode == AofSyncMode::Always),
            final(self).spec_config() == old(self).spec_config(),
            exists|at: u64|
                r.bytes@ == #[trigger] (AofEntryModel {
                    op: AofOpType::SetKey,
                    key: key@,
                    value: Some(value@),
                    ttl_ms,
                    timestamp_ms: at,
                }).frame(),
    {
        let entry = AofEntry::set(key, value, ttl_ms);
        let r = self.append(&entry);
        assert(r.bytes@ == (AofEntryModel {
            op: AofOpType::SetKey,
            key: key@,
            value: Some(value@),
            ttl_ms,
            timestamp_ms: entry.timestamp_ms,
        }).frame());
        r
    }

    /// Frames and counts a delete.
    pub fn log_del(&mut self, key: Vec<u8>) -> (r: Appended)
        ensures
            r.flush == (old(self).spec_config().sync_mode == AofSyncMode::Always),
            final(self).spec_config() == old(self).spec_config(),
            exists|at: u64|
                r.bytes@ == #[trigger] (AofEntryModel {
                    op: AofOpType::Del,
                    key: key@,
                    value: None,
                    ttl_ms: None,
                    timestamp_ms: at,
                }).frame(),
    {
        let entry = AofEntry::del(key);
        let r = self.append(&entry);
        assert(r.bytes@ == (AofEntryModel {
            op: AofOpType::Del,
            key: key@,
            value: None,
            ttl_ms: None,
            timestamp_ms: entry.timestamp_ms,
        }).frame());
        r
    }

    /// The number of entries that were appended.
    pub fn entry_count(&self) -> (n: usize)
        ensures
            n == self.spec_entry_count(),
    {
        self.entry_count
    }

    /// Whether the log is due for compaction.
    pub fn needs_rewrite(&self) -> (r: bool)
        ensures
            r == (self.spec_entry_count() >= self.spec_config().rewrite_threshold),
    {
        self.entry_count >= self.config.rewrite_threshold
    }
}

} // verus!
