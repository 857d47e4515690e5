//! Replication: the stream of writes that a leader keeps for its
//! replicas, and how far each replica has confirmed it.

use vstd::prelude::*;
use super::node::NodeId;
use crate::counter::{clamped_difference, saturating_difference, wrapped_sum, wrapping_sum};
use crate::storage::entry::Clock;

verus! {

/// How a write waits for its replicas.
#[derive(Debug, Clone, Copy, PartialEq, Eq, Structural)]
pub enum ReplicationMode {
    /// Not at all: fast, eventually consistent.
    Async,
    /// For a least number of replicas.
    SemiSync,
    /// For all replicas.
    Sync,
}

impl Default for ReplicationMode {
    fn default() -> (m: ReplicationMode)
        ensures
            m == ReplicationMode::Async,
    {
        ReplicationMode::Async
    }
}

/// Replication configuration.
#[derive(Debug, Clone, Copy, PartialEq, Eq, Structural)]
pub struct ReplicationConfig {
    /// How a write waits for its replicas.
    pub mode: ReplicationMode,
    /// Least number of replicas for semi-synchronous replication.
    pub min_replicas: usize,
    /// Replication timeout in milliseconds.
    pub timeout_ms: u64,
    /// Entries per batch.
    pub batch_size: usize,
    /// Size of the replication stream's buffer, in bytes.
    pub buffer_size: usize,
}

impl Default for ReplicationConfig {
    /// Asynchronous, one replica, one second, batches of 1000, 16 MiB.
    fn default() -> (c: ReplicationConfig)
        ensures
            c == (ReplicationConfig {
                mode: ReplicationMode::Async,
                min_replicas: 1,
                timeout_ms: 1000,
                batch_size: 1000,
                buffer_size: 16777216,
            }),
    {
        ReplicationConfig {
            mode: ReplicationMode::Async,
            min_replicas: 1,
            timeout_ms: 1000,
            batch_size: 1000,
            buffer_size: 16777216,
        }
    }
}

impl ReplicationConfig {
    /// The same configuration with this mode.
    pub fn with_mode(self, mode: ReplicationMode) -> (c: ReplicationConfig)
        ensures
            c == (ReplicationConfig { mode, ..self }),
    {
        ReplicationConfig { mode, ..self }
    }

    /// The same configuration with this least number of replicas.
    pub fn with_min_replicas(self, n: usize) -> (c: ReplicationConfig)
        ensures
            c == (ReplicationConfig { min_replicas: n, ..self }),
    {
        ReplicationConfig { min_replicas: n, ..self }
    }
}

/// Kinds of replicated writes.
#[derive(Debug, Clone, Copy, PartialEq, Eq, Structural)]
pub enum ReplicationOp {
    SetKey,
    Del,
    Expire,
}

/// One write of the replication stream.
#[derive(Debug, Clone)]
pub struct ReplicationEntry {
    /// Sequence number.
    pub seq: u64,
    /// Kind of write.
    pub op: ReplicationOp,
    /// When the write was recorded, on the manager's clock.
    pub timestamp_ms: u64,
    /// The write, serialized.
    pub data: Vec<u8>,
}

/// A write of the stream as a value.
pub struct ReplicationEntryModel {
    pub seq: u64,
    pub op: ReplicationOp,
    pub timestamp_ms: u64,
    pub data: Seq<u8>,
}

impl View for ReplicationEntry {
    type V = ReplicationEntryModel;

    open spec fn view(&self) -> ReplicationEntryModel {
        ReplicationEntryModel {
            seq: self.seq,
            op: self.op,
            timestamp_ms: self.timestamp_ms,
            data: self.data@,
        }
    }
}

impl ReplicationEntry {
    /// A copy of this entry.
    pub fn duplicate(&self) -> (e: ReplicationEntry)
        ensures
            e@ == self@,
    {
        ReplicationEntry {
            seq: self.seq,
            op: self.op,
            timestamp_ms: self.timestamp_ms,
            data: self.data.clone(),
        }
    }
}

/// The writes that a buffer holds.
pub open spec fn stream_view(buffer: Seq<ReplicationEntry>) -> Seq<ReplicationEntryModel> {
    Seq::new(buffer.len(), |i: int| buffer[i]@)
}

/// What a leader knows of one replica.
#[derive(Debug, Clone, Copy, PartialEq, Eq, Structural)]
pub struct ReplicaState {
    pub node_id: NodeId,
    /// How far the replica has confirmed the stream.
    pub offset: u64,
    /// How far the replica is behind the leader.
    pub lag: u64,
    /// When the replica last confirmed, on the manager's clock.
    pub last_ack: u64,
    pub connected: bool,
}

impl ReplicaState {
    /// A replica that has confirmed nothing, seen at `now`.
    pub fn new(node_id: NodeId, now: u64) -> (r: ReplicaState)
        ensures
            r == (ReplicaState { node_id, offset: 0, lag: 0, last_ack: now, connected: false }),
    {
        ReplicaState { node_id, offset: 0, lag: 0, last_ack: now, connected: false }
    }

    /// Records at `now` that the replica has confirmed up to `offset`
    /// while the leader is at `leader_offset`.
    pub fn update_offset(&mut self, offset: u64, leader_offset: u64, now: u64)
        ensures
            *final(self) == (ReplicaState {
                offset,
                lag: clamped_difference(leader_offset, offset),
                last_ack: now,
                ..*old(self)
            }),
    {
        self.offset = offset;
        self.lag = saturating_difference(leader_offset, offset);
        self.last_ack = now;
    }
}

/// Whether the first `n` replicas hold one with this identifier.
pub open spec fn has_replica(replicas: Seq<ReplicaState>, node_id: NodeId) -> bool {
    exists|i: int| 0 <= i < replicas.len() && (#[trigger] replicas[i]).node_id == node_id
}

/// The position of the replica with this identifier.
pub open spec fn replica_index(replicas: Seq<ReplicaState>, node_id: NodeId) -> int {
    choose|i: int| 0 <= i < replicas.len() && (#[trigger] replicas[i]).node_id == node_id
}

/// The replicas with one more, or with the one of the same identifier
/// replaced by it; every other replica is as it was.
pub open spec fn with_replica(replicas: Seq<ReplicaState>, state: ReplicaState) -> Seq<
    ReplicaState,
> {
    if has_replica(replicas, state.node_id) {
        replicas.update(replica_index(replicas, state.node_id), state)
    } else {
        replicas.push(state)
    }
}

/// A replica that is added at `now` while the leader is at
/// `leader_offset`: it has confirmed nothing, is behind by all that the
/// leader has written, and is not connected.
pub open spec fn added_replica(node_id: NodeId, leader_offset: u64, now: u64) -> ReplicaState {
    ReplicaState { node_id, offset: 0, lag: leader_offset, last_ack: now, connected: false }
}

/// The replicas after one of them has confirmed up to `offset` at `now`,
/// while the leader is at `leader_offset`; an unknown replica changes
/// nothing, and every other replica is as it was.
pub open spec fn acked(
    replicas: Seq<ReplicaState>,
    node_id: NodeId,
    offset: u64,
    leader_offset: u64,
    now: u64,
) -> Seq<ReplicaState> {
    if has_replica(replicas, node_id) {
        replicas.update(
            replica_index(replicas, node_id),
            ReplicaState {
                offset,
                lag: clamped_difference(leader_offset, offset),
                last_ack: now,
                ..replicas[replica_index(replicas, node_id)]
            },
        )
    } else {
        replicas
    }
}

/// No identifier occurs twice.
pub open spec fn distinct_replicas(replicas: Seq<ReplicaState>) -> bool {
    forall|i: int, j: int|
        0 <= i < j < replicas.len() ==> (#[trigger] replicas[i]).node_id != (
        #[trigger] replicas[j]).node_id
}

/// The sum of the lags of the first `n` replicas, modulo 2^64.
pub open spec fn lag_sum(replicas: Seq<ReplicaState>, n: int) -> u64
    decreases n,
{
    if n <= 0 {
        0
    } else {
        wrapped_sum(lag_sum(replicas, n - 1), replicas[n - 1].lag)
    }
}

/// The least offset among the first `n` replicas, or `start` if there is
/// none below it.
pub open spec fn least_offset(replicas: Seq<ReplicaState>, n: int, start: u64) -> u64
    decreases n,
{
    if n <= 0 {
        start
    } else {
        let rest = least_offset(replicas, n - 1, start);
        if replicas[n - 1].offset < rest {
            replicas[n - 1].offset
        } else {
            rest
        }
    }
}

/// The number of the first `n` replicas that have confirmed `offset`.
pub open spec fn confirmed_count(replicas: Seq<ReplicaState>, n: int, offset: u64) -> int
    decreases n,
{
    if n <= 0 {
        0
    } else {
        confirmed_count(replicas, n - 1, offset) + if replicas[n - 1].offset >= offset {
            1int
        } else {
            0int
        }
    }
}

/// The number of the first `n` replicas that are connected.
pub open spec fn connected_count(replicas: Seq<ReplicaState>, n: int) -> int
    decreases n,
{
    if n <= 0 {
        0
    } else {
        connected_count(replicas, n - 1) + if replicas[n - 1].connected {
            1int
        } else {
            0int
        }
    }
}

/// Whether a write at `offset` is durable under a configuration, given
/// what the replicas have confirmed.
pub open spec fn durable(config: ReplicationConfig, replicas: Seq<ReplicaState>, offset: u64)
    -> bool {
    match config.mode {
        ReplicationMode::Async => true,
        ReplicationMode::SemiSync => confirmed_count(replicas, replicas.len() as int, offset)
            >= config.min_replicas,
        ReplicationMode::Sync => confirmed_count(replicas, replicas.len() as int, offset)
            == replicas.len(),
    }
}

/// The entries among the first `n` of a stream with a sequence number
/// above `from_offset`, in their order, up to `limit` of them.
pub open spec fn entries_after(
    stream: Seq<ReplicationEntryModel>,
    from_offset: u64,
    limit: int,
    n: int,
) -> Seq<ReplicationEntryModel>
    decreases n,
{
    if n <= 0 {
        Seq::empty()
    } else {
        let before = entries_after(stream, from_offset, limit, n - 1);
        if stream[n - 1].seq > from_offset && before.len() < limit {
            before.push(stream[n - 1])
        } else {
            before
        }
    }
}

/// The stream after a write: the write is appended, and where the stream
/// is then longer than a hundredth of the buffer size, its oldest writes
/// are dropped until as many as a two-hundredth of the buffer size are
/// left.
pub open spec fn stream_after(
    stream: Seq<ReplicationEntryModel>,
    entry: ReplicationEntryModel,
    buffer_size: usize,
) -> Seq<ReplicationEntryModel> {
    let grown = stream.push(entry);
    if grown.len() > buffer_size / 100 {
        grown.skip(grown.len() - buffer_size / 200)
    } else {
        grown
    }
}

/// There are no more confirming or connected replicas than replicas.
proof fn lemma_confirmed_bound(replicas: Seq<ReplicaState>, n: int, offset: u64)
    requires
        0 <= n <= replicas.len(),
    ensures
        0 <= confirmed_count(replicas, n, offset) <= n,
        0 <= connected_count(replicas, n) <= n,
    decreases n,
{
    if n > 0 {
        lemma_confirmed_bound(replicas, n - 1, offset);
    }
}

/// Replication manager of a leader.
pub struct ReplicationManager {
    config: ReplicationConfig,
    offset: u64,
    replicas: Vec<ReplicaState>,
    buffer: Vec<ReplicationEntry>,
    is_leader: bool,
    clock: Clock,
}

impl ReplicationManager {
    /// The configuration.
    pub closed spec fn spec_config(&self) -> ReplicationConfig {
        self.config
    }

    /// The write position of the leader.
    pub closed spec fn spec_offset(&self) -> u64 {
        self.offset
    }

    /// The replicas, in the order in which they were added.
    pub closed spec fn replicas(&self) -> Seq<ReplicaState> {
        self.replicas@
    }

    /// The writes that the buffer holds.
    pub closed spec fn stream(&self) -> Seq<ReplicationEntryModel> {
        stream_view(self.buffer@)
    }

    /// No replica is known twice, and the lag of each is the distance from
    /// what it has confirmed to where the leader is.
    pub open spec fn wf(&self) -> bool {
        &&& distinct_replicas(self.replicas())
        &&& forall|i: int|
            0 <= i < self.replicas().len() ==> (#[trigger] self.replicas()[i]).lag
                == clamped_difference(self.spec_offset(), self.replicas()[i].offset)
    }

    /// A manager at offset zero without replicas.
    pub fn new(config: ReplicationConfig) -> (m: ReplicationManager)
        ensures
            m.wf(),
            m.spec_config() == config,
            m.spec_offset() == 0,
            m.replicas().len() == 0,
            m.stream().len() == 0,
    {
        ReplicationManager {
            config,
            offset: 0,
            replicas: Vec::new(),
            buffer: Vec::new(),
            is_leader: false,
            clock: Clock::new(),
        }
    }

    /// The write position.
    pub fn offset(&self) -> (o: u64)
        ensures
            o == self.spec_offset(),
    {
        self.offset
    }

    fn find(&self, node_id: NodeId) -> (r: Option<usize>)
        ensures
            match r {
                Some(i) => i < self.replicas().len() && self.replicas()[i as int].node_id
                    == node_id,
                None => !has_replica(self.replicas(), node_id),
            },
    {
        let mut i: usize = 0;
        while i < self.replicas.len()
            invariant
                i <= self.replicas@.len(),
                forall|j: int| 0 <= j < i ==> (#[trigger] self.replicas@[j]).node_id != node_id,
            decreases self.replicas@.len() - i,
        {
            if self.replicas[i].node_id == node_id {
                return Some(i);
            }
            i += 1;
        }
        None
    }

    /// Adds a replica that has confirmed nothing, or resets the one that
    /// is known under this identifier. The other replicas stay as they
    /// are.
    pub fn add_replica(&mut self, node_id: NodeId)
        requires
            old(self).wf(),
        ensures
            final(self).wf(),
            final(self).spec_config() == old(self).spec_config(),
            final(self).spec_offset() == old(self).spec_offset(),
            final(self).stream() == old(self).stream(),
            has_replica(final(self).replicas(), node_id),
            ({
                let r = final(self).replicas()[replica_index(final(self).replicas(), node_id)];
                r.node_id == node_id && r.offset == 0 && !r.connected && r.lag
                    == old(self).spec_offset()
            }),
            final(self).replicas().len() == old(self).replicas().len() + if has_replica(
                old(self).replicas(),
                node_id,
            ) {
                0int
            } else {
                1int
            },
            forall|id: NodeId|
                id != node_id ==> has_replica(final(self).replicas(), id) == has_replica(
                    old(self).replicas(),
                    id,
                ),
            exists|now: u64|
                final(self).replicas() == with_replica(
                    old(self).replicas(),
                    #[trigger] added_replica(node_id, old(self).spec_offset(), now),
                ),
    {
        let now = self.clock.now();
        let mut state = ReplicaState::new(node_id, now);
        state.lag = self.offset;
        let ghost before = self.replicas@;
        assert(state == added_replica(node_id, self.spec_offset(), now));
        match self.find(node_id) {
            Some(i) => {
                proof {
                    let c0 = replica_index(before, node_id);
                    if c0 != i {
                        if c0 < i {
                            assert(before[c0].node_id != before[i as int].node_id);
                        } else {
                            assert(before[i as int].node_id != before[c0].node_id);
                        }
                    }
                }
                self.replicas.set(i, state);
                assert(self.replicas@ =~= with_replica(before, state));
                proof {
                    let after = self.replicas@;
                    assert(after[i as int].node_id == node_id);
                    let c = replica_index(after, node_id);
                    if c != i {
                        if c < i {
                            assert(after[c].node_id != after[i as int].node_id);
                        } else {
                            assert(after[i as int].node_id != after[c].node_id);
                        }
                    }
                    assert forall|id: NodeId| id != node_id implies has_replica(after, id)
                        == has_replica(before, id) by {
                        if has_replica(before, id) {
                            let k = replica_index(before, id);
                            assert(after[k].node_id == id);
                        }
                        if has_replica(after, id) {
                            let k = replica_index(after, id);
                            assert(before[k].node_id == id);
                        }
                    }
                }
            },
            None => {
                self.replicas.push(state);
                assert(self.replicas@ =~= with_replica(before, state));
                proof {
                    let after = self.replicas@;
                    let i = before.len() as int;
                    assert(after[i].node_id == node_id);
                    let c = replica_index(after, node_id);
                    if c != i {
                        assert(before[c].node_id == node_id);
                    }
                    assert forall|id: NodeId| id != node_id implies has_replica(after, id)
                        == has_replica(before, id) by {
                        if has_replica(before, id) {
                            let k = replica_index(before, id);
                            assert(after[k].node_id == id);
                        }
                        if has_replica(after, id) {
                            let k = replica_index(after, id);
                            assert(before[k].node_id == id);
                        }
                    }
                }
            },
        }
    }

    /// Removes the replica with this identifier, if it is known.
    pub fn remove_replica(&mut self, node_id: NodeId)
        requires
            old(self).wf(),
        ensures
            final(self).wf(),
            final(self).spec_config() == old(self).spec_config(),
            final(self).spec_offset() == old(self).spec_offset(),
            final(self).stream() == old(self).stream(),
            !has_replica(final(self).replicas(), node_id),
            final(self).replicas() == if has_replica(old(self).replicas(), node_id) {
                old(self).replicas().remove(replica_index(old(self).replicas(), node_id))
            } else {
                old(self).replicas()
            },
    {
        let ghost before = self.replicas@;
        match self.find(node_id) {
            Some(i) => {
                proof {
                    let c = replica_index(before, node_id);
                    if c != i {
                        if c < i {
                            assert(before[c].node_id != before[i as int].node_id);
                        } else {
                            assert(before[i as int].node_id != before[c].node_id);
                        }
                    }
                }
                self.replicas.remove(i);
                proof {
                    let after = self.replicas@;
                    assert forall|k: int| 0 <= k < after.len() implies (#[trigger] after[k]).node_id
                        != node_id by {
                        if k < i {
                            assert(after[k] == before[k]);
                            assert(before[k].node_id != before[i as int].node_id);
                        } else {
                            assert(after[k] == before[k + 1]);
                            assert(before[i as int].node_id != before[k + 1].node_id);
                        }
                    }
                    assert forall|a: int, b: int| 0 <= a < b < after.len() implies (
                    #[trigger] after[a]).node_id != (#[trigger] after[b]).node_id by {
                        let a0 = if a < i {
                            a
                        } else {
                            a + 1
                        };
                        let b0 = if b < i {
                            b
                        } else {
                            b + 1
                        };
                        assert(after[a] == before[a0] && after[b] == before[b0]);
                        assert(before[a0].node_id != before[b0].node_id);
                    }
                }
            },
            None => {},
        }
    }

    /// Records a write at time `timestamp_ms` and returns its sequence
    /// number, the next after the write position. Every replica falls one
    /// further behind.
    pub fn record_at(&mut self, op: ReplicationOp, data: Vec<u8>, timestamp_ms: u64) -> (seq: u64)
        requires
            old(self).wf(),
            old(self).spec_offset() < u64::MAX,
        ensures
            final(self).wf(),
            seq == old(self).spec_offset() + 1,
            final(self).spec_offset() == seq,
            final(self).spec_config() == old(self).spec_config(),
            final(self).stream() == stream_after(
                old(self).stream(),
                ReplicationEntryModel { seq, op, timestamp_ms, data: data@ },
                old(self).spec_config().buffer_size,
            ),
            final(self).replicas().len() == old(self).replicas().len(),
            forall|i: int|
                0 <= i < old(self).replicas().len() ==> (#[trigger] final(self).replicas()[i])
                    == (ReplicaState {
                    lag: clamped_difference(seq, old(self).replicas()[i].offset),
                    ..old(self).replicas()[i]
                }),
    {
        let seq = self.offset + 1;
        self.offset = seq;
        let entry = ReplicationEntry { seq, op, timestamp_ms, data };
        let ghost before = self.stream();
        let ghost old_replicas = self.replicas@;
        self.buffer.push(entry);
        assert(self.stream() =~= before.push(entry@));
        let limit = self.config.buffer_size / 100;
        if self.buffer.len() > limit {
            let keep = self.config.buffer_size / 200;
            let trim_to = self.buffer.len() - keep;
            let ghost grown = self.stream();
            let tail = self.buffer.split_off(trim_to);
            self.buffer = tail;
            assert(self.stream() =~= grown.skip(trim_to as int));
        }
        let mut i: usize = 0;
        while i < self.replicas.len()
            invariant
                i <= self.replicas@.len(),
                self.replicas@.len() == old_replicas.len(),
                self.offset == seq,
                self.config == old(self).config,
                self.stream() == stream_after(
                    before,
                    ReplicationEntryModel { seq, op, timestamp_ms, data: data@ },
                    old(self).config.buffer_size,
                ),
                forall|j: int|
                    0 <= j < i ==> (#[trigger] self.replicas@[j]) == (ReplicaState {
                        lag: clamped_difference(seq, old_replicas[j].offset),
                        ..old_replicas[j]
                    }),
                forall|j: int| i <= j < old_replicas.len() ==> self.replicas@[j] == old_replicas[j],
            decreases self.replicas@.len() - i,
        {
            let mut r = self.replicas[i];
            r.lag = saturating_difference(seq, r.offset);
            self.replicas.set(i, r);
            i += 1;
        }
        proof {
            let after = self.replicas@;
            assert forall|a: int, b: int| 0 <= a < b < after.len() implies (
            #[trigger] after[a]).node_id != (#[trigger] after[b]).node_id by {
                assert(old_replicas[a].node_id != old_replicas[b].node_id);
            }
        }
        seq
    }

    /// Records a write now and returns its sequence number.
    pub fn record(&mut self, op: ReplicationOp, data: Vec<u8>) -> (seq: u64)
        requires
            old(self).wf(),
            old(self).spec_offset() < u64::MAX,
        ensures
            final(self).wf(),
            seq == old(self).spec_offset() + 1,
            final(self).spec_offset() == seq,
            final(self).spec_config() == old(self).spec_config(),
            final(self).replicas().len() == old(self).replicas().len(),
            forall|i: int|
                0 <= i < old(self).replicas().len() ==> (#[trigger] final(self).replicas()[i])
                    == (ReplicaState {
                    lag: clamped_difference(seq, old(self).replicas()[i].offset),
                    ..old(self).replicas()[i]
                }),
    {
        let now = self.clock.now() / 1_000_000;
        self.record_at(op, data, now)
    }

    /// The writes with a sequence number above `from_offset`, oldest
    /// first, and no more than `limit` of them.
    pub fn get_entries(&self, from_offset: u64, limit: usize) -> (r: Vec<ReplicationEntry>)
        ensures
            stream_view(r@) == entries_after(
                self.stream(),
                from_offset,
                limit as int,
                self.stream().len() as int,
            ),
            r@.len() <= limit,
    {
        let ghost stream = self.stream();
        let mut out: Vec<ReplicationEntry> = Vec::new();
        let mut i: usize = 0;
        assert(stream_view(out@) =~= Seq::<ReplicationEntryModel>::empty());
        while i < self.buffer.len()
            invariant
                i <= self.buffer@.len(),
                stream == self.stream(),
                out@.len() <= limit,
                out@.len() <= i,
                stream_view(out@) == entries_after(stream, from_offset, limit as int, i as int),
            decreases self.buffer@.len() - i,
        {
            if self.buffer[i].seq > from_offset && out.len() < limit {
                let ghost before = stream_view(out@);
                out.push(self.buffer[i].duplicate());
                assert(stream_view(out@) =~= before.push(stream[i as int]));
            }
            i += 1;
        }
        out
    }

    /// Records at `now` that a replica has confirmed up to `offset`. An
    /// unknown replica is ignored.
    pub fn ack_at(&mut self, node_id: NodeId, offset: u64, now: u64)
        requires
            old(self).wf(),
        ensures
            final(self).wf(),
            final(self).spec_config() == old(self).spec_config(),
            final(self).spec_offset() == old(self).spec_offset(),
            final(self).stream() == old(self).stream(),
            final(self).replicas() == acked(
                old(self).replicas(),
                node_id,
                offset,
                old(self).spec_offset(),
                now,
            ),
    {
        let leader_offset = self.offset;
        let ghost before = self.replicas@;
        match self.find(node_id) {
            Some(i) => {
                proof {
                    let c = replica_index(before, node_id);
                    if c != i {
                        if c < i {
                            assert(before[c].node_id != before[i as int].node_id);
                        } else {
                            assert(before[i as int].node_id != before[c].node_id);
                        }
                    }
                }
                let mut r = self.replicas[i];
                r.update_offset(offset, leader_offset, now);
                self.replicas.set(i, r);
                proof {
                    let after = self.replicas@;
                    assert forall|a: int, b: int| 0 <= a < b < after.len() implies (
                    #[trigger] after[a]).node_id != (#[trigger] after[b]).node_id by {
                        assert(before[a].node_id != before[b].node_id);
                    }
                }
            },
            None => {},
        }
    }

    /// Records now that a replica has confirmed up to `offset`. The other
    /// replicas stay as they are.
    pub fn ack(&mut self, node_id: NodeId, offset: u64)
        requires
            old(self).wf(),
        ensures
            final(self).wf(),
            final(self).spec_config() == old(self).spec_config(),
            final(self).spec_offset() == old(self).spec_offset(),
            final(self).replicas().len() == old(self).replicas().len(),
            has_replica(old(self).replicas(), node_id) ==> has_replica(
                final(self).replicas(),
                node_id,
            ) && final(self).replicas()[replica_index(final(self).replicas(), node_id)].offset
                == offset && final(self).replicas()[replica_index(
                final(self).replicas(),
                node_id,
            )].lag == clamped_difference(old(self).spec_offset(), offset),
            !has_replica(old(self).replicas(), node_id)
                ==> final(self).replicas() == old(self).replicas(),
            final(self).stream() == old(self).stream(),
            exists|now: u64|
                final(self).replicas() == #[trigger] acked(
                    old(self).replicas(),
                    node_id,
                    offset,
                    old(self).spec_offset(),
                    now,
                ),
    {
        let now = self.clock.now();
        let ghost before = self.replicas@;
        self.ack_at(node_id, offset, now);
        proof {
            if has_replica(before, node_id) {
                let c = replica_index(before, node_id);
                let after = self.replicas@;
                assert(after[c].node_id == node_id);
                let d = replica_index(after, node_id);
                if d != c {
                    if d < c {
                        assert(after[d].node_id != after[c].node_id);
                    } else {
                        assert(after[c].node_id != after[d].node_id);
                    }
                }
            }
        }
    }

    /// How far a replica is behind, if it is known.
    pub fn get_lag(&self, node_id: NodeId) -> (r: Option<u64>)
        requires
            self.wf(),
        ensures
            r is Some <==> has_replica(self.replicas(), node_id),
            r matches Some(lag) ==> lag == clamped_difference(
                self.spec_offset(),
                self.replicas()[replica_index(self.replicas(), node_id)].offset,
            ),
    {
        match self.find(node_id) {
            Some(i) => {
                proof {
                    let c = replica_index(self.replicas@, node_id);
                    if c != i {
                        if c < i {
                            assert(self.replicas@[c].node_id != self.replicas@[i as int].node_id);
                        } else {
                            assert(self.replicas@[i as int].node_id != self.replicas@[c].node_id);
                        }
                    }
                }
                Some(self.replicas[i].lag)
            },
            None => None,
        }
    }

    /// The sum of the lags of all replicas, modulo 2^64.
    pub fn total_lag(&self) -> (sum: u64)
        ensures
            sum == lag_sum(self.replicas(), self.replicas().len() as int),
    {
        let mut sum: u64 = 0;
        let mut i: usize = 0;
        while i < self.replicas.len()
            invariant
                i <= self.replicas@.len(),
                sum == lag_sum(self.replicas@, i as int),
            decreases self.replicas@.len() - i,
        {
            sum = wrapping_sum(sum, self.replicas[i].lag);
            i += 1;
        }
        sum
    }

    /// The least offset that every replica has confirmed, or zero where
    /// there is no replica.
    pub fn min_confirmed_offset(&self) -> (least: u64)
        ensures
            least == if self.replicas().len() == 0 {
                0
            } else {
                least_offset(self.replicas(), self.replicas().len() as int, u64::MAX)
            },
            forall|i: int| 0 <= i < self.replicas().len() ==> least <= self.replicas()[i].offset,
    {
        if self.replicas.len() == 0 {
            return 0;
        }
        let mut least: u64 = u64::MAX;
        let mut i: usize = 0;
        while i < self.replicas.len()
            invariant
                i <= self.replicas@.len(),
                least == least_offset(self.replicas@, i as int, u64::MAX),
                forall|j: int| 0 <= j < i ==> least <= self.replicas@[j].offset,
            decreases self.replicas@.len() - i,
        {
            if self.replicas[i].offset < least {
                least = self.replicas[i].offset;
            }
            i += 1;
        }
        least
    }

    fn count_confirmed(&self, offset: u64) -> (n: usize)
        ensures
            n == confirmed_count(self.replicas(), self.replicas().len() as int, offset),
    {
        let mut n: usize = 0;
        let mut i: usize = 0;
        while i < self.replicas.len()
            invariant
                i <= self.replicas@.len(),
                n <= i,
                n == confirmed_count(self.replicas@, i as int, offset),
            decreases self.replicas@.len() - i,
        {
            if self.replicas[i].offset >= offset {
                n += 1;
            }
            i += 1;
        }
        n
    }

    /// Whether a write at `offset` is durable: always in asynchronous
    /// mode; where at least the configured number of replicas have
    /// confirmed it in semi-synchronous mode; where all have in
    /// synchronous mode.
    pub fn is_durable(&self, offset: u64) -> (r: bool)
        ensures
            r == durable(self.spec_config(), self.replicas(), offset),
    {
        match self.config.mode {
            ReplicationMode::Async => true,
            ReplicationMode::SemiSync => self.count_confirmed(offset) >= self.config.min_replicas,
            ReplicationMode::Sync => self.count_confirmed(offset) == self.replicas.len(),
        }
    }

    /// The number of replicas.
    pub fn replica_count(&self) -> (n: usize)
        ensures
            n == self.replicas().len(),
    {
        self.replicas.len()
    }

    /// The number of connected replicas.
    pub fn healthy_replica_count(&self) -> (n: usize)
        ensures
            n == connected_count(self.replicas(), self.replicas().len() as int),
    {
        let mut n: usize = 0;
        let mut i: usize = 0;
        while i < self.replicas.len()
            invariant
                i <= self.replicas@.len(),
                n <= i,
                n == connected_count(self.replicas@, i as int),
            decreases self.replicas@.len() - i,
        {
            if self.replicas[i].connected {
                n += 1;
            }
            i += 1;
        }
        n
    }
}

} // verus!
