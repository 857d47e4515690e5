//! Replication between regions: which regions there are, which of them
//! are healthy, and which one is the primary.

use vstd::prelude::*;
use crate::storage::entry::{Clock, NANOS_PER_SEC};
use crate::text::str_eq;

verus! {

/// A geographic region.
#[derive(Debug, Clone, PartialEq, Eq, Hash)]
pub struct GeoRegion {
    /// Region identifier.
    pub id: String,
    /// Region name, such as "us-east-1".
    pub name: String,
    /// Where the datacenter is.
    pub datacenter: String,
    /// Lower numbers are preferred.
    pub priority: u32,
    /// Whether this is the primary region.
    pub is_primary: bool,
}

/// A region as a value.
pub struct RegionModel {
    pub id: Seq<char>,
    pub name: Seq<char>,
    pub datacenter: Seq<char>,
    pub priority: u32,
    pub is_primary: bool,
}

impl View for GeoRegion {
    type V = RegionModel;

    open spec fn view(&self) -> RegionModel {
        RegionModel {
            id: self.id@,
            name: self.name@,
            datacenter: self.datacenter@,
            priority: self.priority,
            is_primary: self.is_primary,
        }
    }
}

impl GeoRegion {
    /// A region of priority 100 that is not primary.
    pub fn new(id: &str, name: &str, datacenter: &str) -> (r: GeoRegion)
        ensures
            r@ == (RegionModel {
                id: id@,
                name: name@,
                datacenter: datacenter@,
                priority: 100,
                is_primary: false,
            }),
    {
        GeoRegion {
            id: String::from_str(id),
            name: String::from_str(name),
            datacenter: String::from_str(datacenter),
            priority: 100,
            is_primary: false,
        }
    }

    /// The same region as the primary, with the best priority.
    pub fn primary(self) -> (r: GeoRegion)
        ensures
            r@ == (RegionModel { is_primary: true, priority: 0, ..self@ }),
    {
        let mut r = self;
        r.is_primary = true;
        r.priority = 0;
        r
    }

    /// The same region with another priority.
    pub fn with_priority(self, priority: u32) -> (r: GeoRegion)
        ensures
            r@ == (RegionModel { priority, ..self@ }),
    {
        let mut r = self;
        r.priority = priority;
        r
    }
}

/// How regions replicate.
#[derive(Debug, Clone, Copy, PartialEq, Eq, Structural)]
pub enum GeoReplicationMode {
    /// One primary, the others stand by.
    ActivePassive,
    /// All regions accept writes.
    ActiveActive,
    /// The primary writes, the others serve reads.
    ReadReplicas,
}

/// Configuration of geo-replication.
#[derive(Debug, Clone, Copy, PartialEq, Eq, Structural)]
pub struct GeoConfig {
    /// How regions replicate.
    pub mode: GeoReplicationMode,
    /// Greatest lag, in milliseconds, of a healthy region.
    pub max_lag_ms: u64,
    /// Seconds between two health checks.
    pub health_check_interval_secs: u64,
    /// Seconds after which a failover is given up.
    pub failover_timeout_secs: u64,
}

impl Default for GeoConfig {
    /// Active-passive, five seconds of lag, a check every second, thirty
    /// seconds for a failover.
    fn default() -> (c: GeoConfig)
        ensures
            c == (GeoConfig {
                mode: GeoReplicationMode::ActivePassive,
                max_lag_ms: 5000,
                health_check_interval_secs: 1,
                failover_timeout_secs: 30,
            }),
    {
        GeoConfig {
            mode: GeoReplicationMode::ActivePassive,
            max_lag_ms: 5000,
            health_check_interval_secs: 1,
            failover_timeout_secs: 30,
        }
    }
}

/// What is known of one region.
#[derive(Debug, Clone)]
pub struct RegionStatus {
    pub region: GeoRegion,
    pub healthy: bool,
    pub replication_lag_ms: u64,
    /// When the region was last heard from, on the manager's clock.
    pub last_heartbeat: u64,
    pub connections: u32,
}

/// The status of a region as a value.
pub struct StatusModel {
    pub region: RegionModel,
    pub healthy: bool,
    pub replication_lag_ms: u64,
    pub last_heartbeat: u64,
    pub connections: u32,
}

impl View for RegionStatus {
    type V = StatusModel;

    open spec fn view(&self) -> StatusModel {
        StatusModel {
            region: self.region@,
            healthy: self.healthy,
            replication_lag_ms: self.replication_lag_ms,
            last_heartbeat: self.last_heartbeat,
            connections: self.connections,
        }
    }
}

/// Whether more than `timeout_secs` seconds lie between a heartbeat and
/// `now`.
pub open spec fn stale(last_heartbeat: u64, now: u64, timeout_secs: u64) -> bool {
    now > last_heartbeat && now - last_heartbeat > timeout_secs * NANOS_PER_SEC
}

impl RegionStatus {
    /// A healthy region without lag or connections, heard from at `now`.
    pub fn new(region: GeoRegion, now: u64) -> (s: RegionStatus)
        ensures
            s@ == (StatusModel {
                region: region@,
                healthy: true,
                replication_lag_ms: 0,
                last_heartbeat: now,
                connections: 0,
            }),
    {
        RegionStatus {
            region,
            healthy: true,
            replication_lag_ms: 0,
            last_heartbeat: now,
            connections: 0,
        }
    }

    /// Records a heartbeat at `now`: the region is healthy.
    pub fn update_heartbeat(&mut self, now: u64)
        ensures
            final(self)@ == (StatusModel { last_heartbeat: now, healthy: true, ..old(self)@ }),
    {
        self.last_heartbeat = now;
        self.healthy = true;
    }

    /// Whether, at `now`, the last heartbeat is more than `timeout_secs`
    /// seconds old.
    pub fn is_stale(&self, now: u64, timeout_secs: u64) -> (r: bool)
        ensures
            r == stale(self.last_heartbeat, now, timeout_secs),
    {
        if now <= self.last_heartbeat {
            return false;
        }
        let elapsed = now - self.last_heartbeat;
        match timeout_secs.checked_mul(NANOS_PER_SEC) {
            Some(limit) => elapsed > limit,
            None => {
                assert(timeout_secs * NANOS_PER_SEC > u64::MAX);
                false
            },
        }
    }
}

/// The regions that a list holds.
pub open spec fn statuses(regions: Seq<RegionStatus>) -> Seq<StatusModel> {
    Seq::new(regions.len(), |i: int| regions[i]@)
}

/// Whether a list of regions holds one with this identifier.
pub open spec fn has_region(regions: Seq<StatusModel>, id: Seq<char>) -> bool {
    exists|i: int| 0 <= i < regions.len() && (#[trigger] regions[i]).region.id == id
}

/// The place of the region with this identifier.
pub open spec fn region_index(regions: Seq<StatusModel>, id: Seq<char>) -> int {
    choose|i: int| 0 <= i < regions.len() && (#[trigger] regions[i]).region.id == id
}

/// No identifier occurs twice.
pub open spec fn distinct_regions(regions: Seq<StatusModel>) -> bool {
    forall|i: int, j: int|
        0 <= i < j < regions.len() ==> (#[trigger] regions[i]).region.id != (
        #[trigger] regions[j]).region.id
}

/// The place of the best healthy region among the first `n`: the one of
/// least priority number, the earliest among equals.
pub open spec fn elected(regions: Seq<StatusModel>, n: int) -> Option<int>
    decreases n,
{
    if n <= 0 {
        None
    } else {
        let before = elected(regions, n - 1);
        if regions[n - 1].healthy && (before is None || regions[n - 1].region.priority
            < regions[before->0].region.priority) {
            Some(n - 1)
        } else {
            before
        }
    }
}

/// The number of healthy regions among the first `n`.
pub open spec fn healthy_regions_among(regions: Seq<StatusModel>, n: int) -> int
    decreases n,
{
    if n <= 0 {
        0
    } else {
        healthy_regions_among(regions, n - 1) + if regions[n - 1].healthy {
            1int
        } else {
            0int
        }
    }
}

/// The elected region is healthy, no healthy region has a lower priority
/// number, and none of the same priority comes before it; where none is
/// elected, no region is healthy.
pub proof fn lemma_elected_is_best(regions: Seq<StatusModel>, n: int)
    requires
        0 <= n <= regions.len(),
    ensures
        match elected(regions, n) {
            Some(b) => {
                &&& 0 <= b < n
                &&& regions[b].healthy
                &&& forall|i: int|
                    0 <= i < n && (#[trigger] regions[i]).healthy ==> regions[b].region.priority
                        <= regions[i].region.priority
                &&& forall|i: int|
                    0 <= i < b && (#[trigger] regions[i]).healthy ==> regions[b].region.priority
                        < regions[i].region.priority
            },
            None => forall|i: int| 0 <= i < n ==> !(#[trigger] regions[i]).healthy,
        },
    decreases n,
{
    if n > 0 {
        lemma_elected_is_best(regions, n - 1);
    }
}

/// What a geo-replication manager holds.
pub struct GeoModel {
    pub config: GeoConfig,
    pub regions: Seq<StatusModel>,
    pub primary_id: Option<Seq<char>>,
}

impl StatusModel {
    /// This status after a health check at `now`: unhealthy where the
    /// region has not been heard from for longer than the timeout, else as
    /// it was.
    pub open spec fn checked(self, now: u64, timeout_secs: u64) -> StatusModel {
        if stale(self.last_heartbeat, now, timeout_secs) {
            StatusModel { healthy: false, ..self }
        } else {
            self
        }
    }
}

impl GeoModel {
    /// The manager after a health check at `now`: every region that has
    /// not been heard from for three check intervals is unhealthy, and
    /// nothing else has changed.
    pub open spec fn health_checked(self, now: u64) -> GeoModel {
        GeoModel {
            regions: Seq::new(
                self.regions.len(),
                |i: int|
                    self.regions[i].checked(
                        now,
                        (self.config.health_check_interval_secs * 3) as u64,
                    ),
            ),
            ..self
        }
    }
}

/// Geo-replication manager.
pub struct GeoReplication {
    config: GeoConfig,
    regions: Vec<RegionStatus>,
    primary_id: Option<String>,
    clock: Clock,
}

impl View for GeoReplication {
    type V = GeoModel;

    closed spec fn view(&self) -> GeoModel {
        GeoModel {
            config: self.config,
            regions: statuses(self.regions@),
            primary_id: match self.primary_id {
                Some(id) => Some(id@),
                None => None,
            },
        }
    }
}

impl GeoReplication {
    /// No region is known twice.
    pub open spec fn wf(&self) -> bool {
        distinct_regions(self@.regions)
    }

    /// A manager without regions.
    pub fn new(config: GeoConfig) -> (g: GeoReplication)
        ensures
            g.wf(),
            g@.config == config,
            g@.regions.len() == 0,
            g@.primary_id is None,
    {
        GeoReplication { config, regions: Vec::new(), primary_id: None, clock: Clock::new() }
    }

    /// The present instant on this manager's clock.
    pub fn now(&self) -> u64 {
        self.clock.now()
    }

    fn find(&self, id: &str) -> (r: Option<usize>)
        ensures
            match r {
                Some(i) => i < self@.regions.len() && self@.regions[i as int].region.id == id@,
                None => !has_region(self@.regions, id@),
            },
    {
        let mut i: usize = 0;
        while i < self.regions.len()
            invariant
                i <= self.regions@.len(),
                forall|j: int| 0 <= j < i ==> (#[trigger] self@.regions[j]).region.id != id@,
            decreases self.regions@.len() - i,
        {
            if str_eq(self.regions[i].region.id.as_str(), id) {
                return Some(i);
            }
            i += 1;
        }
        None
    }

    /// Adds a region at `now`, healthy and without lag, in the place of
    /// the one that is known under its identifier. A primary region
    /// becomes the primary.
    pub fn add_region_at(&mut self, region: GeoRegion, now: u64)
        requires
            old(self).wf(),
        ensures
            final(self).wf(),
            final(self)@.config == old(self)@.config,
            final(self)@.primary_id == if region.is_primary {
                Some(region.id@)
            } else {
                old(self)@.primary_id
            },
            final(self)@.regions == ({
                let status = StatusModel {
                    region: region@,
                    healthy: true,
                    replication_lag_ms: 0,
                    last_heartbeat: now,
                    connections: 0,
                };
                if has_region(old(self)@.regions, region.id@) {
                    old(self)@.regions.update(region_index(old(self)@.regions, region.id@), status)
                } else {
                    old(self)@.regions.push(status)
                }
            }),
    {
        if region.is_primary {
            self.primary_id = Some(region.id.clone());
        }
        let ghost before = self@.regions;
        let found = self.find(region.id.as_str());
        let status = RegionStatus::new(region, now);
        match found {
            Some(i) => {
                proof {
                    let c = region_index(before, status@.region.id);
                    if c < i {
                        assert(before[c].region.id != before[i as int].region.id);
                    } else if c > i {
                        assert(before[i as int].region.id != before[c].region.id);
                    }
                }
                self.regions.set(i, status);
                proof {
                    let after = self@.regions;
                    assert(after =~= before.update(i as int, status@));
                    assert forall|a: int, b: int| 0 <= a < b < after.len() implies (
                    #[trigger] after[a]).region.id != (#[trigger] after[b]).region.id by {
                        assert(before[a].region.id != before[b].region.id);
                    }
                }
            },
            None => {
                self.regions.push(status);
                proof {
                    let after = self@.regions;
                    assert(after =~= before.push(status@));
                    assert forall|a: int, b: int| 0 <= a < b < after.len() implies (
                    #[trigger] after[a]).region.id != (#[trigger] after[b]).region.id by {
                        if b < before.len() {
                            assert(before[a].region.id != before[b].region.id);
                        } else {
                            assert(before[a].region.id != status@.region.id);
                        }
                    }
                }
            },
        }
    }

    /// Adds a region now.
    pub fn add_region(&mut self, region: GeoRegion)
        requires
            old(self).wf(),
        ensures
            final(self).wf(),
            final(self)@.config == old(self)@.config,
            final(self)@.primary_id == if region.is_primary {
                Some(region.id@)
            } else {
                old(self)@.primary_id
            },
            final(self)@.regions.len() == old(self)@.regions.len() + if has_region(
                old(self)@.regions,
                region.id@,
            ) {
                0int
            } else {
                1int
            },
            has_region(final(self)@.regions, region.id@),
    {
        let now = self.clock.now();
        let ghost before = self@.regions;
        let ghost id = region.id@;
        self.add_region_at(region, now);
        proof {
            let after = self@.regions;
            if has_region(before, id) {
                assert(after[region_index(before, id)].region.id == id);
            } else {
                assert(after[before.len() as int].region.id == id);
            }
        }
    }

    /// The status of the primary region, where one is known and present.
    pub fn primary(&self) -> (r: Option<&RegionStatus>)
        ensures
            match self@.primary_id {
                Some(id) => if has_region(self@.regions, id) {
                    r matches Some(status) && status@.region.id == id && exists|i: int|
                        0 <= i < self@.regions.len() && self@.regions[i] == status@
                } else {
                    r is None
                },
                None => r is None,
            },
    {
        match &self.primary_id {
            Some(id) => match self.find(id.as_str()) {
                Some(i) => {
                    assert(self@.regions[i as int] == self.regions@[i as int]@);
                    Some(&self.regions[i])
                },
                None => None,
            },
            None => None,
        }
    }

    /// The healthy regions, in the order in which they were added.
    pub fn healthy_regions(&self) -> (r: Vec<&RegionStatus>)
        ensures
            r@.len() == healthy_regions_among(self@.regions, self@.regions.len() as int),
            forall|i: int| 0 <= i < r@.len() ==> (#[trigger] r@[i]).healthy,
    {
        let mut out: Vec<&RegionStatus> = Vec::new();
        let mut i: usize = 0;
        while i < self.regions.len()
            invariant
                i <= self.regions@.len(),
                out@.len() == healthy_regions_among(self@.regions, i as int),
                forall|j: int| 0 <= j < out@.len() ==> (#[trigger] out@[j]).healthy,
            decreases self.regions@.len() - i,
        {
            if self.regions[i].healthy {
                out.push(&self.regions[i]);
            }
            i += 1;
        }
        out
    }

    /// Records at `now` a heartbeat of a region with its lag: the region
    /// is healthy where the lag is within the configured limit. An unknown
    /// region is ignored.
    pub fn heartbeat_at(&mut self, region_id: &str, lag_ms: u64, now: u64)
        requires
            old(self).wf(),
        ensures
            final(self).wf(),
            final(self)@.config == old(self)@.config,
            final(self)@.primary_id == old(self)@.primary_id,
            final(self)@.regions == if has_region(old(self)@.regions, region_id@) {
                let i = region_index(old(self)@.regions, region_id@);
                old(self)@.regions.update(
                    i,
                    StatusModel {
                        last_heartbeat: now,
                        replication_lag_ms: lag_ms,
                        healthy: lag_ms <= old(self)@.config.max_lag_ms,
                        ..old(self)@.regions[i]
                    },
                )
            } else {
                old(self)@.regions
            },
    {
        let ghost before = self@.regions;
        match self.find(region_id) {
            Some(i) => {
                proof {
                    let c = region_index(before, region_id@);
                    if c < i {
                        assert(before[c].region.id != before[i as int].region.id);
                    } else if c > i {
                        assert(before[i as int].region.id != before[c].region.id);
                    }
                }
                let max_lag = self.config.max_lag_ms;
                let mut status = self.regions.remove(i);
                status.update_heartbeat(now);
                status.replication_lag_ms = lag_ms;
                status.healthy = lag_ms <= max_lag;
                self.regions.insert(i, status);
                proof {
                    let after = self@.regions;
                    assert(after =~= before.update(i as int, status@));
                    assert forall|a: int, b: int| 0 <= a < b < after.len() implies (
                    #[trigger] after[a]).region.id != (#[trigger] after[b]).region.id by {
                        assert(before[a].region.id != before[b].region.id);
                    }
                }
            },
            None => {
                assert(self@.regions =~= before);
            },
        }
    }

    /// Records a heartbeat of a region now.
    pub fn heartbeat(&mut self, region_id: &str, lag_ms: u64)
        requires
            old(self).wf(),
        ensures
            final(self).wf(),
            final(self)@.config == old(self)@.config,
            final(self)@.primary_id == old(self)@.primary_id,
            final(self)@.regions.len() == old(self)@.regions.len(),
            has_region(old(self)@.regions, region_id@) ==> final(self)@.regions[region_index(
                old(self)@.regions,
                region_id@,
            )].healthy == (lag_ms <= old(self)@.config.max_lag_ms),
            forall|i: int|
                0 <= i < old(self)@.regions.len() && old(self)@.regions[i].region.id != region_id@
                    ==> (#[trigger] final(self)@.regions[i]) == old(self)@.regions[i],
    {
        let now = self.clock.now();
        let ghost before = self@.regions;
        self.heartbeat_at(region_id, lag_ms, now);
        proof {
            if has_region(before, region_id@) {
                let c = region_index(before, region_id@);
                assert(before[c].region.id == region_id@);
            }
        }
    }

    /// Marks as unhealthy, at `now`, every region whose last heartbeat is
    /// more than three check intervals old.
    pub fn check_health_at(&mut self, now: u64)
        requires
            old(self).wf(),
            old(self)@.config.health_check_interval_secs * 3 <= u64::MAX,
        ensures
            final(self).wf(),
            final(self)@ == old(self)@.health_checked(now),
    {
        let timeout = self.config.health_check_interval_secs * 3;
        let ghost start = self@;
        let ghost before = start.regions;
        let mut i: usize = 0;
        while i < self.regions.len()
            invariant
                i <= self.regions@.len(),
                self.regions@.len() == before.len(),
                self.config == old(self).config,
                self.primary_id == old(self).primary_id,
                timeout == old(self)@.config.health_check_interval_secs * 3,
                before == old(self)@.regions,
                forall|j: int|
                    0 <= j < i ==> (#[trigger] self@.regions[j]) == if stale(
                        before[j].last_heartbeat,
                        now,
                        timeout,
                    ) {
                        StatusModel { healthy: false, ..before[j] }
                    } else {
                        before[j]
                    },
                forall|j: int| i <= j < before.len() ==> (#[trigger] self@.regions[j]) == before[j],
            decreases self.regions@.len() - i,
        {
            let ghost prev = self@.regions;
            assert(prev[i as int] == before[i as int]);
            assert(prev[i as int] == self.regions@[i as int]@);
            if self.regions[i].is_stale(now, timeout) {
                let mut status = self.regions.remove(i);
                status.healthy = false;
                self.regions.insert(i, status);
                assert(self@.regions =~= prev.update(i as int, status@));
            }
            assert forall|j: int| 0 <= j < i + 1 implies (#[trigger] self@.regions[j]) == if stale(
                before[j].last_heartbeat,
                now,
                timeout,
            ) {
                StatusModel { healthy: false, ..before[j] }
            } else {
                before[j]
            } by {
                if j < i {
                    assert(self@.regions[j] == prev[j]);
                }
            }
            assert forall|j: int| i + 1 <= j < before.len() implies (#[trigger] self@.regions[j])
                == before[j] by {
                assert(self@.regions[j] == prev[j]);
            }
            i += 1;
        }
        proof {
            let after = self@.regions;
            assert forall|a: int, b: int| 0 <= a < b < after.len() implies (
            #[trigger] after[a]).region.id != (#[trigger] after[b]).region.id by {
                assert(before[a].region.id != before[b].region.id);
            }
            assert(after =~= start.health_checked(now).regions);
        }
    }

    /// Marks as unhealthy every region that has not been heard from for
    /// three check intervals, as of the instant that the manager's clock
    /// shows.
    pub fn check_health(&mut self)
        requires
            old(self).wf(),
            old(self)@.config.health_check_interval_secs * 3 <= u64::MAX,
        ensures
            final(self).wf(),
            exists|now: u64| final(self)@ == #[trigger] old(self)@.health_checked(now),
    {
        let now = self.clock.now();
        self.check_health_at(now);
    }

    /// Chooses a new primary where the present one is unknown, absent or
    /// unhealthy: the healthy region of least priority number, the one
    /// added first among equals. Returns its identifier; where the
    /// primary stays, or no region is healthy, returns nothing and
    /// changes nothing.
    pub fn elect_primary(&mut self) -> (r: Option<String>)
        requires
            old(self).wf(),
        ensures
            final(self).wf(),
            final(self)@.config == old(self)@.config,
            final(self)@.regions == old(self)@.regions,
            ({
                let regions = old(self)@.regions;
                let keeps = old(self)@.primary_id matches Some(id) && has_region(regions, id)
                    && regions[region_index(regions, id)].healthy;
                let best = elected(regions, regions.len() as int);
                if keeps || best is None {
                    r is None && final(self)@.primary_id == old(self)@.primary_id
                } else {
                    r matches Some(id) && id@ == regions[best->0].region.id
                        && final(self)@.primary_id == Some(id@)
                }
            }),
    {
        let ghost regions = self@.regions;
        let current: Option<usize> = match &self.primary_id {
            Some(id) => self.find(id.as_str()),
            None => None,
        };
        if let Some(i) = current {
            proof {
                let id = self@.primary_id->0;
                let c = region_index(regions, id);
                if c < i {
                    assert(regions[c].region.id != regions[i as int].region.id);
                } else if c > i {
                    assert(regions[i as int].region.id != regions[c].region.id);
                }
            }
            if self.regions[i].healthy {
                return None;
            }
        }
        let mut best: Option<usize> = None;
        let mut i: usize = 0;
        while i < self.regions.len()
            invariant
                i <= self.regions@.len(),
                regions == self@.regions,
                match best {
                    Some(b) => b < i && elected(regions, i as int) == Some(b as int),
                    None => elected(regions, i as int) is None,
                },
            decreases self.regions@.len() - i,
        {
            if self.regions[i].healthy {
                let better = match best {
                    None => true,
                    Some(b) => self.regions[i].region.priority < self.regions[b].region.priority,
                };
                if better {
                    best = Some(i);
                }
            }
            i += 1;
        }
        match best {
            Some(b) => {
                let id = self.regions[b].region.id.clone();
                self.primary_id = Some(id.clone());
                Some(id)
            },
            None => None,
        }
    }

    /// The number of regions.
    pub fn region_count(&self) -> (n: usize)
        ensures
            n == self@.regions.len(),
    {
        self.regions.len()
    }
}

} // verus!
