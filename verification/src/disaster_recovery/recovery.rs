//! Recovery to a point in time: the recovery points that are kept, in the
//! order of their timestamps, and the rules by which old ones leave.

use vstd::prelude::*;
use crate::counter::{wrapped_sum, wrapping_sum};
use crate::storage::entry::unix_millis;
use crate::text::{decimal, decimal_text};

verus! {

/// A point to which the data can be recovered.
#[derive(Debug, Clone)]
pub struct RecoveryPoint {
    /// Unique identifier.
    pub id: String,
    /// Milliseconds since the Unix epoch.
    pub timestamp_ms: u64,
    /// Path of the snapshot file, if there is one.
    pub snapshot_path: Option<String>,
    /// Offset of the operation log at this point.
    pub aof_offset: u64,
    /// Description.
    pub description: String,
    /// Size in bytes.
    pub size_bytes: u64,
}

/// A recovery point as a value.
pub struct PointModel {
    pub id: Seq<char>,
    pub timestamp_ms: u64,
    pub snapshot_path: Option<Seq<char>>,
    pub aof_offset: u64,
    pub description: Seq<char>,
    pub size_bytes: u64,
}

impl View for RecoveryPoint {
    type V = PointModel;

    open spec fn view(&self) -> PointModel {
        PointModel {
            id: self.id@,
            timestamp_ms: self.timestamp_ms,
            snapshot_path: match self.snapshot_path {
                Some(p) => Some(p@),
                None => None,
            },
            aof_offset: self.aof_offset,
            description: self.description@,
            size_bytes: self.size_bytes,
        }
    }
}

impl RecoveryPoint {
    /// A point without snapshot, description or size.
    pub fn new(id: &str, timestamp_ms: u64) -> (p: RecoveryPoint)
        ensures
            p@ == (PointModel {
                id: id@,
                timestamp_ms,
                snapshot_path: None,
                aof_offset: 0,
                description: Seq::empty(),
                size_bytes: 0,
            }),
    {
        RecoveryPoint {
            id: String::from_str(id),
            timestamp_ms,
            snapshot_path: None,
            aof_offset: 0,
            description: String::new(),
            size_bytes: 0,
        }
    }

    /// The same point with a snapshot file.
    pub fn with_snapshot(self, path: String) -> (p: RecoveryPoint)
        ensures
            p@ == (PointModel { snapshot_path: Some(path@), ..self@ }),
    {
        let mut p = self;
        p.snapshot_path = Some(path);
        p
    }

    /// The same point with an offset of the operation log.
    pub fn with_aof_offset(self, offset: u64) -> (p: RecoveryPoint)
        ensures
            p@ == (PointModel { aof_offset: offset, ..self@ }),
    {
        let mut p = self;
        p.aof_offset = offset;
        p
    }

    /// The same point with a description.
    pub fn with_description(self, desc: &str) -> (p: RecoveryPoint)
        ensures
            p@ == (PointModel { description: desc@, ..self@ }),
    {
        let mut p = self;
        p.description = String::from_str(desc);
        p
    }

    /// The timestamp in whole seconds, in decimal.
    pub fn formatted_time(&self) -> (s: String)
        ensures
            s@ == decimal_text((self.timestamp_ms / 1000) as nat),
    {
        decimal(self.timestamp_ms / 1000)
    }

    /// A copy of this point.
    pub fn duplicate(&self) -> (p: RecoveryPoint)
        ensures
            p@ == self@,
    {
        RecoveryPoint {
            id: self.id.clone(),
            timestamp_ms: self.timestamp_ms,
            snapshot_path: match &self.snapshot_path {
                Some(path) => Some(path.clone()),
                None => None,
            },
            aof_offset: self.aof_offset,
            description: self.description.clone(),
            size_bytes: self.size_bytes,
        }
    }
}

/// Configuration of point-in-time recovery.
#[derive(Debug, Clone)]
pub struct PitrConfig {
    /// Seconds for which recovery points are kept.
    pub retention_secs: u64,
    /// Least number of seconds between two recovery points.
    pub min_interval_secs: u64,
    /// Greatest number of recovery points.
    pub max_points: usize,
    /// Data directory.
    pub data_dir: String,
}

impl Default for PitrConfig {
    /// Seven days, one point an hour, 168 points.
    fn default() -> (c: PitrConfig)
        ensures
            c.retention_secs == 604800,
            c.min_interval_secs == 3600,
            c.max_points == 168,
            c.data_dir@ == "./data/pitr"@,
    {
        PitrConfig {
            retention_secs: 604800,
            min_interval_secs: 3600,
            max_points: 168,
            data_dir: String::from_str("./data/pitr"),
        }
    }
}

/// The points that a list holds.
pub open spec fn points_view(points: Seq<RecoveryPoint>) -> Seq<PointModel> {
    Seq::new(points.len(), |i: int| points[i]@)
}

/// The timestamps grow strictly along the list.
pub open spec fn ascending(points: Seq<PointModel>) -> bool {
    forall|i: int, j: int|
        0 <= i < j < points.len() ==> (#[trigger] points[i]).timestamp_ms < (
        #[trigger] points[j]).timestamp_ms
}

/// The number of points among the first `n` with a timestamp below `ts`.
pub open spec fn below(points: Seq<PointModel>, ts: int, n: int) -> int
    decreases n,
{
    if n <= 0 {
        0
    } else {
        below(points, ts, n - 1) + if points[n - 1].timestamp_ms < ts {
            1int
        } else {
            0int
        }
    }
}

/// In an ascending list the points below a timestamp are its first ones.
pub proof fn lemma_below(points: Seq<PointModel>, ts: int, n: int)
    requires
        ascending(points),
        0 <= n <= points.len(),
    ensures
        0 <= below(points, ts, n) <= n,
        forall|i: int| 0 <= i < below(points, ts, n) ==> (#[trigger] points[i]).timestamp_ms < ts,
        forall|i: int| below(points, ts, n) <= i < n ==> (#[trigger] points[i]).timestamp_ms >= ts,
    decreases n,
{
    if n > 0 {
        lemma_below(points, ts, n - 1);
        let k = below(points, ts, n - 1);
        if points[n - 1].timestamp_ms < ts {
            if k < n - 1 {
                assert(points[k].timestamp_ms >= ts);
                assert(points[k].timestamp_ms < points[n - 1].timestamp_ms);
            }
        }
    }
}

/// The list after a point was added: in the place that its timestamp
/// asks for, and instead of a point with the same timestamp.
pub open spec fn with_point(points: Seq<PointModel>, p: PointModel) -> Seq<PointModel> {
    let k = below(points, p.timestamp_ms as int, points.len() as int);
    if k < points.len() && points[k].timestamp_ms == p.timestamp_ms {
        points.update(k, p)
    } else {
        points.insert(k, p)
    }
}

/// The instant before which points are too old at `now_ms`.
pub open spec fn cutoff(now_ms: u64, retention_secs: u64) -> u64 {
    if now_ms >= retention_secs * 1000 {
        (now_ms - retention_secs * 1000) as u64
    } else {
        0
    }
}

/// The number of points that leave at a cleanup: those older than the
/// cutoff, and as many of the oldest as are over the limit.
pub open spec fn leaving(points: Seq<PointModel>, cut: u64, max_points: usize) -> int {
    let old = below(points, cut as int, points.len() as int);
    let over = points.len() - max_points;
    if old >= over {
        old
    } else {
        over
    }
}

/// The list after a cleanup.
pub open spec fn cleaned(points: Seq<PointModel>, cut: u64, max_points: usize) -> Seq<PointModel> {
    points.skip(leaving(points, cut, max_points))
}

/// The sum of the sizes of the first `n` points, modulo 2^64.
pub open spec fn size_sum(points: Seq<PointModel>, n: int) -> u64
    decreases n,
{
    if n <= 0 {
        0
    } else {
        wrapped_sum(size_sum(points, n - 1), points[n - 1].size_bytes)
    }
}

/// What a recovery manager holds.
pub struct PitrModel {
    pub retention_secs: u64,
    pub max_points: usize,
    pub points: Seq<PointModel>,
}

impl PitrModel {
    /// The manager after a point was added and the list cleaned up as of
    /// `now_ms`.
    pub open spec fn with_added(self, point: PointModel, now_ms: u64) -> PitrModel {
        PitrModel {
            points: cleaned(
                with_point(self.points, point),
                cutoff(now_ms, self.retention_secs),
                self.max_points,
            ),
            ..self
        }
    }
}

/// The point that is made at `now_ms` with a description: its identifier
/// is "rp_" and the time.
pub open spec fn created_point(description: Seq<char>, now_ms: u64) -> PointModel {
    PointModel {
        id: "rp_"@ + decimal_text(now_ms as nat),
        timestamp_ms: now_ms,
        snapshot_path: None,
        aof_offset: 0,
        description,
        size_bytes: 0,
    }
}

/// Point-in-time recovery manager.
pub struct PointInTimeRecovery {
    config: PitrConfig,
    points: Vec<RecoveryPoint>,
}

impl View for PointInTimeRecovery {
    type V = PitrModel;

    closed spec fn view(&self) -> PitrModel {
        PitrModel {
            retention_secs: self.config.retention_secs,
            max_points: self.config.max_points,
            points: points_view(self.points@),
        }
    }
}

/// What is left of an ascending list after its first points is ascending.
proof fn lemma_skip_ascending(points: Seq<PointModel>, k: int)
    requires
        ascending(points),
        0 <= k <= points.len(),
    ensures
        ascending(points.skip(k)),
{
    let rest = points.skip(k);
    assert forall|i: int, j: int| 0 <= i < j < rest.len() implies (
    #[trigger] rest[i]).timestamp_ms < (#[trigger] rest[j]).timestamp_ms by {
        assert(rest[i] == points[i + k] && rest[j] == points[j + k]);
    }
}

/// Adding a point keeps the list ascending.
proof fn lemma_with_point_ascending(points: Seq<PointModel>, p: PointModel)
    requires
        ascending(points),
    ensures
        ascending(with_point(points, p)),
        with_point(points, p).len() >= 1,
{
    let k = below(points, p.timestamp_ms as int, points.len() as int);
    lemma_below(points, p.timestamp_ms as int, points.len() as int);
    let after = with_point(points, p);
    if k < points.len() && points[k].timestamp_ms == p.timestamp_ms {
        assert forall|i: int, j: int| 0 <= i < j < after.len() implies (
        #[trigger] after[i]).timestamp_ms < (#[trigger] after[j]).timestamp_ms by {
            assert(points[i].timestamp_ms < points[j].timestamp_ms);
        }
    } else {
        assert forall|i: int, j: int| 0 <= i < j < after.len() implies (
        #[trigger] after[i]).timestamp_ms < (#[trigger] after[j]).timestamp_ms by {
            let i0 = if i < k {
                i
            } else {
                i - 1
            };
            let j0 = if j < k {
                j
            } else {
                j - 1
            };
            if i == k {
                assert(after[j] == points[j0]);
                assert(points[j0].timestamp_ms >= p.timestamp_ms);
                if j0 == k {
                } else {
                    assert(points[k].timestamp_ms < points[j0].timestamp_ms);
                }
            } else if j == k {
                assert(after[i] == points[i0]);
            } else {
                assert(after[i] == points[i0] && after[j] == points[j0]);
                assert(points[i0].timestamp_ms < points[j0].timestamp_ms);
            }
        }
    }
}

impl PointInTimeRecovery {
    /// The points are in ascending order of their timestamps.
    pub open spec fn wf(&self) -> bool {
        ascending(self@.points)
    }

    /// A manager without points.
    pub fn new(config: PitrConfig) -> (m: PointInTimeRecovery)
        ensures
            m.wf(),
            m@.points.len() == 0,
            m@.retention_secs == config.retention_secs,
            m@.max_points == config.max_points,
    {
        PointInTimeRecovery { config, points: Vec::new() }
    }

    fn position(&self, ts: u64) -> (k: usize)
        requires
            self.wf(),
        ensures
            k == below(self@.points, ts as int, self@.points.len() as int),
            k <= self@.points.len(),
    {
        let mut k: usize = 0;
        proof {
            lemma_below(self@.points, ts as int, self@.points.len() as int);
        }
        while k < self.points.len() && self.points[k].timestamp_ms < ts
            invariant
                k <= self.points@.len(),
                self.wf(),
                k == below(self@.points, ts as int, k as int),
            decreases self.points@.len() - k,
        {
            k += 1;
        }
        proof {
            let points = self@.points;
            lemma_below(points, ts as int, k as int);
            if k < points.len() {
                assert(points[k as int].timestamp_ms >= ts);
                lemma_below_stays(points, ts as int, k as int, points.len() as int);
            }
        }
        k
    }

    /// Adds a point, in the place that its timestamp asks for and instead
    /// of a point with the same timestamp; then cleans up as of `now_ms`.
    pub fn add_point_at(&mut self, point: RecoveryPoint, now_ms: u64)
        requires
            old(self).wf(),
        ensures
            final(self).wf(),
            final(self)@ == old(self)@.with_added(point@, now_ms),
    {
        let ghost before = self@.points;
        let k = self.position(point.timestamp_ms);
        proof {
            lemma_with_point_ascending(before, point@);
        }
        if k < self.points.len() && self.points[k].timestamp_ms == point.timestamp_ms {
            self.points.set(k, point);
            assert(self@.points =~= before.update(k as int, point@));
        } else {
            self.points.insert(k, point);
            assert(self@.points =~= before.insert(k as int, point@));
        }
        self.cleanup_old_points(now_ms);
    }

    /// Adds a point and cleans up as of the time that the system clock
    /// shows.
    pub fn add_point(&mut self, point: RecoveryPoint)
        requires
            old(self).wf(),
        ensures
            final(self).wf(),
            exists|now_ms: u64| final(self)@ == #[trigger] old(self)@.with_added(point@, now_ms),
    {
        let now_ms = unix_millis();
        self.add_point_at(point, now_ms);
    }

    /// Makes a point at `now_ms` with the identifier "rp_" and the time,
    /// adds it, and returns a copy.
    pub fn create_point_at(&mut self, description: &str, now_ms: u64) -> (p: RecoveryPoint)
        requires
            old(self).wf(),
        ensures
            final(self).wf(),
            p@ == created_point(description@, now_ms),
            final(self)@ == old(self)@.with_added(p@, now_ms),
    {
        let mut id = String::from_str("rp_");
        let digits = decimal(now_ms);
        id.append(digits.as_str());
        let point = RecoveryPoint::new(id.as_str(), now_ms).with_description(description);
        let copy = point.duplicate();
        self.add_point_at(point, now_ms);
        copy
    }

    /// Makes a point at the time that the system clock shows, adds it,
    /// and returns a copy.
    pub fn create_point(&mut self, description: &str) -> (p: RecoveryPoint)
        requires
            old(self).wf(),
        ensures
            final(self).wf(),
            exists|now_ms: u64|
                p@ == #[trigger] created_point(description@, now_ms) && final(self)@
                    == old(self)@.with_added(p@, now_ms),
    {
        let now_ms = unix_millis();
        self.create_point_at(description, now_ms)
    }

    /// The latest point at or before a timestamp.
    pub fn get_point_at(&self, timestamp_ms: u64) -> (r: Option<&RecoveryPoint>)
        requires
            self.wf(),
        ensures
            r is None ==> forall|i: int|
                0 <= i < self@.points.len() ==> (#[trigger] self@.points[i]).timestamp_ms
                    > timestamp_ms,
            r matches Some(p) ==> p.timestamp_ms <= timestamp_ms && (exists|i: int|
                0 <= i < self@.points.len() && self@.points[i] == p@) && (forall|i: int|
                0 <= i < self@.points.len() && (#[trigger] self@.points[i]).timestamp_ms
                    <= timestamp_ms ==> self@.points[i].timestamp_ms <= p.timestamp_ms),
    {
        let mut k: usize = 0;
        while k < self.points.len() && self.points[k].timestamp_ms <= timestamp_ms
            invariant
                k <= self.points@.len(),
                forall|i: int| 0 <= i < k
                    ==> (#[trigger] self@.points[i]).timestamp_ms <= timestamp_ms,
            decreases self.points@.len() - k,
        {
            k += 1;
        }
        proof {
            let points = self@.points;
            if k < points.len() {
                assert forall|i: int| k <= i < points.len() implies (
                #[trigger] points[i]).timestamp_ms > timestamp_ms by {
                    assert(points[k as int].timestamp_ms > timestamp_ms);
                    if i > k {
                        assert(points[k as int].timestamp_ms < points[i].timestamp_ms);
                    }
                }
            }
        }
        if k == 0 {
            None
        } else {
            proof {
                let points = self@.points;
                assert(points[k - 1] == self.points@[k - 1]@);
                assert forall|i: int|
                    0 <= i < points.len() && (#[trigger] points[i]).timestamp_ms
                        <= timestamp_ms implies points[i].timestamp_ms <= points[k
                    - 1].timestamp_ms by {
                    if i < k - 1 {
                        assert(points[i].timestamp_ms < points[k - 1].timestamp_ms);
                    }
                }
            }
            Some(&self.points[k - 1])
        }
    }

    /// The point with the latest timestamp.
    pub fn latest(&self) -> (r: Option<&RecoveryPoint>)
        ensures
            self@.points.len() == 0 ==> r is None,
            self@.points.len() > 0 ==> r is Some,
            r matches Some(p) ==> p@ == self@.points.last(),
    {
        let n = self.points.len();
        if n == 0 {
            None
        } else {
            Some(&self.points[n - 1])
        }
    }

    /// All points, oldest first.
    pub fn list(&self) -> (r: Vec<&RecoveryPoint>)
        ensures
            r@.len() == self@.points.len(),
            forall|i: int| 0 <= i < r@.len() ==> (#[trigger] r@[i])@ == self@.points[i],
    {
        let mut out: Vec<&RecoveryPoint> = Vec::new();
        let mut i: usize = 0;
        while i < self.points.len()
            invariant
                i <= self.points@.len(),
                out@.len() == i,
                forall|j: int| 0 <= j < i ==> (#[trigger] out@[j])@ == self@.points[j],
            decreases self.points@.len() - i,
        {
            out.push(&self.points[i]);
            i += 1;
        }
        out
    }

    /// The points with a timestamp from `start_ms` to `end_ms`, both
    /// included, oldest first.
    pub fn range(&self, start_ms: u64, end_ms: u64) -> (r: Vec<&RecoveryPoint>)
        requires
            self.wf(),
        ensures
            r@.len() == below(self@.points, end_ms + 1, self@.points.len() as int) - below(
                self@.points,
                start_ms as int,
                self@.points.len() as int,
            ) || (r@.len() == 0 && below(self@.points, end_ms + 1, self@.points.len() as int)
                <= below(self@.points, start_ms as int, self@.points.len() as int)),
            forall|i: int|
                0 <= i < r@.len() ==> start_ms <= (#[trigger] r@[i]).timestamp_ms <= end_ms,
            forall|i: int|
                0 <= i < r@.len() ==> (#[trigger] r@[i])@ == self@.points[below(
                    self@.points,
                    start_ms as int,
                    self@.points.len() as int,
                ) + i],
    {
        let first = self.position(start_ms);
        let ghost points = self@.points;
        let mut out: Vec<&RecoveryPoint> = Vec::new();
        let mut i: usize = first;
        proof {
            lemma_below(points, start_ms as int, points.len() as int);
            lemma_below(points, end_ms + 1, points.len() as int);
        }
        while i < self.points.len() && self.points[i].timestamp_ms <= end_ms
            invariant
                first <= i <= self.points@.len(),
                points == self@.points,
                self.wf(),
                first == below(points, start_ms as int, points.len() as int),
                out@.len() == i - first,
                forall|j: int|
                    0 <= j < out@.len() ==> start_ms <= (#[trigger] out@[j]).timestamp_ms <= end_ms,
                forall|j: int| 0 <= j < out@.len() ==> (#[trigger] out@[j])@ == points[first + j],
                forall|j: int| first <= j < i ==> (#[trigger] points[j]).timestamp_ms <= end_ms,
                forall|j: int|
                    first <= j < points.len() ==> (#[trigger] points[j]).timestamp_ms >= start_ms,
            decreases self.points@.len() - i,
        {
            assert(points[i as int] == self.points@[i as int]@);
            out.push(&self.points[i]);
            i += 1;
        }
        proof {
            let hi = below(points, end_ms + 1, points.len() as int);
            // every point from `i` on is beyond the end, every point
            // before it and from `first` on is within
            if i < points.len() {
                assert(points[i as int].timestamp_ms > end_ms);
                if hi > i {
                    assert(points[hi - 1].timestamp_ms < end_ms + 1);
                    if hi - 1 > i {
                        assert(points[i as int].timestamp_ms < points[hi - 1].timestamp_ms);
                    }
                }
            }
            if hi < i && hi >= first {
                assert(points[hi].timestamp_ms >= end_ms + 1);
            }
            if hi < first && first < i {
                assert(points[first as int].timestamp_ms <= end_ms);
                assert(points[first as int].timestamp_ms >= end_ms + 1);
            }
        }
        out
    }

    /// Removes the point with this timestamp and returns it.
    pub fn delete(&mut self, timestamp_ms: u64) -> (r: Option<RecoveryPoint>)
        requires
            old(self).wf(),
        ensures
            final(self).wf(),
            final(self)@.retention_secs == old(self)@.retention_secs,
            final(self)@.max_points == old(self)@.max_points,
            match r {
                Some(p) => p.timestamp_ms == timestamp_ms && exists|i: int|
                    0 <= i < old(self)@.points.len() && old(self)@.points[i] == p@
                        && final(self)@.points == old(self)@.points.remove(i),
                None => final(self)@.points == old(self)@.points && forall|i: int|
                    0 <= i < old(self)@.points.len()
                        ==> (#[trigger] old(self)@.points[i]).timestamp_ms != timestamp_ms,
            },
    {
        let ghost before = self@.points;
        let k = self.position(timestamp_ms);
        proof {
            lemma_below(before, timestamp_ms as int, before.len() as int);
        }
        if k < self.points.len() && self.points[k].timestamp_ms == timestamp_ms {
            let p = self.points.remove(k);
            proof {
                let after = self@.points;
                assert(before[k as int] == p@);
                assert(after =~= before.remove(k as int));
                assert forall|i: int, j: int| 0 <= i < j < after.len() implies (
                #[trigger] after[i]).timestamp_ms < (#[trigger] after[j]).timestamp_ms by {
                    let i0 = if i < k {
                        i
                    } else {
                        i + 1
                    };
                    let j0 = if j < k {
                        j
                    } else {
                        j + 1
                    };
                    assert(after[i] == before[i0] && after[j] == before[j0]);
                    assert(before[i0].timestamp_ms < before[j0].timestamp_ms);
                }
            }
            Some(p)
        } else {
            proof {
                assert forall|i: int| 0 <= i < before.len() implies (
                #[trigger] before[i]).timestamp_ms != timestamp_ms by {
                    if i > k {
                        assert(before[k as int].timestamp_ms < before[i].timestamp_ms);
                    }
                }
            }
            None
        }
    }

    /// Removes, as of `now_ms`, the points that are older than the
    /// retention allows, and then the oldest ones until no more than the
    /// greatest number are left.
    pub fn cleanup_old_points(&mut self, now_ms: u64)
        requires
            old(self).wf(),
        ensures
            final(self).wf(),
            final(self)@ == (PitrModel {
                points: cleaned(
                    old(self)@.points,
                    cutoff(now_ms, old(self)@.retention_secs),
                    old(self)@.max_points,
                ),
                ..old(self)@
            }),
    {
        let cut: u64 = match self.config.retention_secs.checked_mul(1000) {
            Some(span) => if now_ms >= span {
                now_ms - span
            } else {
                0
            },
            None => {
                assert(self.config.retention_secs * 1000 > u64::MAX);
                0
            },
        };
        let ghost before = self@.points;
        let old = self.position(cut);
        let n = self.points.len();
        let over = if n > self.config.max_points {
            n - self.config.max_points
        } else {
            0
        };
        let k = if old >= over {
            old
        } else {
            over
        };
        let rest = self.points.split_off(k);
        self.points = rest;
        proof {
            assert(self@.points =~= before.skip(k as int));
            lemma_skip_ascending(before, k as int);
        }
    }

    /// The sum of the sizes of all points, modulo 2^64.
    pub fn total_size(&self) -> (sum: u64)
        ensures
            sum == size_sum(self@.points, self@.points.len() as int),
    {
        let mut sum: u64 = 0;
        let mut i: usize = 0;
        while i < self.points.len()
            invariant
                i <= self.points@.len(),
                sum == size_sum(self@.points, i as int),
            decreases self.points@.len() - i,
        {
            sum = wrapping_sum(sum, self.points[i].size_bytes);
            i += 1;
        }
        sum
    }

    /// The number of points.
    pub fn count(&self) -> (n: usize)
        ensures
            n == self@.points.len(),
    {
        self.points.len()
    }
}

/// Behind the first point at or after an instant no point is before it.
proof fn lemma_below_stays(points: Seq<PointModel>, ts: int, k: int, n: int)
    requires
        ascending(points),
        0 <= k <= n <= points.len(),
        k < points.len() ==> points[k].timestamp_ms >= ts,
    ensures
        below(points, ts, n) == below(points, ts, k),
    decreases n,
{
    if n > k {
        lemma_below_stays(points, ts, k, n - 1);
        if n - 1 > k {
            assert(points[k].timestamp_ms < points[n - 1].timestamp_ms);
        }
    }
}

impl Default for PointInTimeRecovery {
    fn default() -> (m: PointInTimeRecovery)
        ensures
            m.wf(),
            m@.points.len() == 0,
            m@.retention_secs == 604800,
            m@.max_points == 168,
    {
        PointInTimeRecovery::new(PitrConfig::default())
    }
}

} // verus!
