//! Failover: when a new primary may be chosen, the votes for it, and the
//! detection of two primaries at once.

use vstd::prelude::*;
use crate::storage::entry::{elapsed_secs, seconds_between, Clock};

verus! {

/// State of the failover machinery.
#[derive(Debug, Clone, Copy, PartialEq, Eq, Structural)]
pub enum FailoverState {
    /// Normal operation.
    Normal,
    /// A failover is in progress.
    InProgress,
    /// A failover was completed.
    Completed,
    /// A person has to step in.
    ManualRequired,
    /// Two primaries were seen at once.
    SplitBrain,
}

/// Failover configuration.
#[derive(Debug, Clone, Copy, PartialEq, Eq, Structural)]
pub struct FailoverConfig {
    /// Least number of approvals for a quorum.
    pub quorum_size: usize,
    /// Seconds after which a failover is given up.
    pub timeout_secs: u64,
    /// Seconds that must lie between two failovers.
    pub cooldown_secs: u64,
    /// Whether failovers start by themselves.
    pub auto_failover: bool,
    /// Greatest number of failovers per hour.
    pub max_failovers_per_hour: u32,
}

impl Default for FailoverConfig {
    /// A quorum of two, thirty seconds, five minutes of cooldown,
    /// automatic, three per hour.
    fn default() -> (c: FailoverConfig)
        ensures
            c == (FailoverConfig {
                quorum_size: 2,
                timeout_secs: 30,
                cooldown_secs: 300,
                auto_failover: true,
                max_failovers_per_hour: 3,
            }),
    {
        FailoverConfig {
            quorum_size: 2,
            timeout_secs: 30,
            cooldown_secs: 300,
            auto_failover: true,
            max_failovers_per_hour: 3,
        }
    }
}

impl FailoverConfig {
    /// The same configuration with this quorum.
    pub fn with_quorum(self, size: usize) -> (c: FailoverConfig)
        ensures
            c == (FailoverConfig { quorum_size: size, ..self }),
    {
        FailoverConfig { quorum_size: size, ..self }
    }

    /// The same configuration without automatic failover.
    pub fn manual_only(self) -> (c: FailoverConfig)
        ensures
            c == (FailoverConfig { auto_failover: false, ..self }),
    {
        FailoverConfig { auto_failover: false, ..self }
    }
}

/// The vote of one node.
#[derive(Debug, Clone, Copy, PartialEq, Eq, Structural)]
pub struct FailoverVote {
    pub node_id: u64,
    pub candidate_id: u64,
    /// When the vote was cast, on the voter's clock.
    pub timestamp: u64,
    pub approved: bool,
}

/// What a failover manager holds.
pub struct FailoverModel {
    pub config: FailoverConfig,
    pub state: FailoverState,
    pub primary: Option<u64>,
    pub votes: Seq<FailoverVote>,
    pub last_failover: Option<u64>,
    pub failover_count: u32,
    pub count_reset: u64,
}

impl FailoverModel {
    /// Whether a failover may start at `now`: the cooldown since the last
    /// one is over, the hour's limit is not reached, failovers are
    /// automatic, and the state is normal.
    pub open spec fn may_failover(self, now: u64) -> bool {
        &&& self.last_failover matches Some(last) ==> seconds_between(last, now)
            >= self.config.cooldown_secs
        &&& self.failover_count < self.config.max_failovers_per_hour
        &&& self.config.auto_failover
        &&& self.state == FailoverState::Normal
    }

    /// The manager after the counting of failovers was looked at, at
    /// `now`: where an hour has passed since the count began, it begins
    /// anew at `now`; else nothing changes.
    pub open spec fn rate_limit_reset(self, now: u64) -> FailoverModel {
        if seconds_between(self.count_reset, now) >= 3600 {
            FailoverModel { failover_count: 0, count_reset: now, ..self }
        } else {
            self
        }
    }

    /// Whether some node has voted under this identifier.
    pub open spec fn has_voted(self, node_id: u64) -> bool {
        exists|i: int| 0 <= i < self.votes.len() && (#[trigger] self.votes[i]).node_id == node_id
    }

    /// The place of a node's vote.
    pub open spec fn vote_index(self, node_id: u64) -> int {
        choose|i: int| 0 <= i < self.votes.len() && (#[trigger] self.votes[i]).node_id == node_id
    }
}

/// The number of approvals for a candidate among the first `n` votes.
pub open spec fn approvals(votes: Seq<FailoverVote>, n: int, candidate_id: u64) -> int
    decreases n,
{
    if n <= 0 {
        0
    } else {
        approvals(votes, n - 1, candidate_id) + if votes[n - 1].candidate_id == candidate_id
            && votes[n - 1].approved {
            1int
        } else {
            0int
        }
    }
}

/// No node has voted twice.
pub open spec fn one_vote_each(votes: Seq<FailoverVote>) -> bool {
    forall|i: int, j: int|
        0 <= i < j < votes.len() ==> (#[trigger] votes[i]).node_id != (#[trigger] votes[j]).node_id
}

/// Failover manager.
pub struct FailoverManager {
    config: FailoverConfig,
    state: FailoverState,
    current_primary: Option<u64>,
    votes: Vec<FailoverVote>,
    last_failover: Option<u64>,
    failover_count: u32,
    failover_count_reset: u64,
    clock: Clock,
}

impl View for FailoverManager {
    type V = FailoverModel;

    closed spec fn view(&self) -> FailoverModel {
        FailoverModel {
            config: self.config,
            state: self.state,
            primary: self.current_primary,
            votes: self.votes@,
            last_failover: self.last_failover,
            failover_count: self.failover_count,
            count_reset: self.failover_count_reset,
        }
    }
}

impl FailoverManager {
    /// No node has voted twice.
    pub open spec fn wf(&self) -> bool {
        one_vote_each(self@.votes)
    }

    /// A manager in normal state without primary, votes or failovers.
    pub fn new(config: FailoverConfig) -> (m: FailoverManager)
        ensures
            m.wf(),
            m@.config == config,
            m@.state == FailoverState::Normal,
            m@.primary is None,
            m@.votes.len() == 0,
            m@.last_failover is None,
            m@.failover_count == 0,
    {
        let clock = Clock::new();
        FailoverManager {
            config,
            state: FailoverState::Normal,
            current_primary: None,
            votes: Vec::new(),
            last_failover: None,
            failover_count: 0,
            failover_count_reset: clock.now(),
            clock,
        }
    }

    /// The present instant on this manager's clock.
    pub fn now(&self) -> u64 {
        self.clock.now()
    }

    /// The state.
    pub fn state(&self) -> (s: FailoverState)
        ensures
            s == self@.state,
    {
        self.state
    }

    /// Notes the primary.
    pub fn set_primary(&mut self, node_id: u64)
        ensures
            final(self)@ == (FailoverModel { primary: Some(node_id), ..old(self)@ }),
    {
        self.current_primary = Some(node_id);
    }

    /// The primary, if one is noted.
    pub fn primary(&self) -> (p: Option<u64>)
        ensures
            p == self@.primary,
    {
        self.current_primary
    }

    /// Whether a failover may start at `now`.
    pub fn can_failover_at(&self, now: u64) -> (r: bool)
        ensures
            r == self@.may_failover(now),
    {
        if let Some(last) = self.last_failover {
            if elapsed_secs(last, now) < self.config.cooldown_secs {
                return false;
            }
        }
        if self.failover_count >= self.config.max_failovers_per_hour {
            return false;
        }
        self.config.auto_failover && self.state == FailoverState::Normal
    }

    /// Whether a failover may start now. Without an earlier failover the
    /// clock does not matter.
    pub fn can_failover(&self) -> (r: bool)
        ensures
            self@.last_failover is None ==> r == (self@.failover_count
                < self@.config.max_failovers_per_hour && self@.config.auto_failover && self@.state
                == FailoverState::Normal),
            r ==> self@.failover_count < self@.config.max_failovers_per_hour
                && self@.config.auto_failover && self@.state == FailoverState::Normal,
    {
        let now = self.clock.now();
        self.can_failover_at(now)
    }

    /// Starts a failover at `now` where one may start: the state is then
    /// in progress and the votes are cleared. Returns whether it started.
    pub fn start_failover_at(&mut self, _candidate_id: u64, now: u64) -> (started: bool)
        requires
            old(self).wf(),
        ensures
            final(self).wf(),
            started == old(self)@.may_failover(now),
            started ==> final(self)@ == (FailoverModel {
                state: FailoverState::InProgress,
                votes: Seq::empty(),
                ..old(self)@
            }),
            !started ==> final(self)@ == old(self)@,
    {
        if !self.can_failover_at(now) {
            return false;
        }
        self.state = FailoverState::InProgress;
        self.votes.clear();
        assert(self.votes@ =~= Seq::<FailoverVote>::empty());
        true
    }

    /// Starts a failover now where one may start.
    pub fn start_failover(&mut self, candidate_id: u64) -> (started: bool)
        requires
            old(self).wf(),
        ensures
            final(self).wf(),
            started ==> final(self)@ == (FailoverModel {
                state: FailoverState::InProgress,
                votes: Seq::empty(),
                ..old(self)@
            }),
            !started ==> final(self)@ == old(self)@,
            old(self)@.last_failover is None
                ==> started
                    == (old(self)@.failover_count < old(self)@.config.max_failovers_per_hour
                        && old(self)@.config.auto_failover && old(self)@.state
                            == FailoverState::Normal),
    {
        let now = self.clock.now();
        self.start_failover_at(candidate_id, now)
    }

    fn find_vote(&self, node_id: u64) -> (r: Option<usize>)
        ensures
            match r {
                Some(i) => i < self@.votes.len() && self@.votes[i as int].node_id == node_id,
                None => !self@.has_voted(node_id),
            },
    {
        let mut i: usize = 0;
        while i < self.votes.len()
            invariant
                i <= self.votes@.len(),
                forall|j: int| 0 <= j < i ==> (#[trigger] self.votes@[j]).node_id != node_id,
            decreases self.votes@.len() - i,
        {
            if self.votes[i].node_id == node_id {
                return Some(i);
            }
            i += 1;
        }
        None
    }

    /// Registers a vote, in the place of an earlier vote of the same node.
    pub fn vote(&mut self, vote: FailoverVote)
        requires
            old(self).wf(),
        ensures
            final(self).wf(),
            final(self)@ == (FailoverModel {
                votes: if old(self)@.has_voted(vote.node_id) {
                    old(self)@.votes.update(old(self)@.vote_index(vote.node_id), vote)
                } else {
                    old(self)@.votes.push(vote)
                },
                ..old(self)@
            }),
    {
        let ghost before = self.votes@;
        match self.find_vote(vote.node_id) {
            Some(i) => {
                proof {
                    let c = self@.vote_index(vote.node_id);
                    if c < i {
                        assert(before[c].node_id != before[i as int].node_id);
                    } else if c > i {
                        assert(before[i as int].node_id != before[c].node_id);
                    }
                }
                self.votes.set(i, vote);
                proof {
                    let after = self.votes@;
                    assert forall|a: int, b: int| 0 <= a < b < after.len() implies (
                    #[trigger] after[a]).node_id != (#[trigger] after[b]).node_id by {
                        assert(before[a].node_id != before[b].node_id);
                    }
                }
            },
            None => {
                self.votes.push(vote);
                proof {
                    let after = self.votes@;
                    assert forall|a: int, b: int| 0 <= a < b < after.len() implies (
                    #[trigger] after[a]).node_id != (#[trigger] after[b]).node_id by {
                        if b < before.len() {
                            assert(before[a].node_id != before[b].node_id);
                        } else {
                            assert(before[a].node_id != vote.node_id);
                        }
                    }
                }
            },
        }
    }

    /// Whether a candidate has as many approvals as the quorum asks for.
    pub fn has_quorum(&self, candidate_id: u64) -> (r: bool)
        ensures
            r == (approvals(self@.votes, self@.votes.len() as int, candidate_id)
                >= self@.config.quorum_size),
    {
        let mut count: usize = 0;
        let mut i: usize = 0;
        while i < self.votes.len()
            invariant
                i <= self.votes@.len(),
                count <= i,
                count == approvals(self.votes@, i as int, candidate_id),
            decreases self.votes@.len() - i,
        {
            if self.votes[i].candidate_id == candidate_id && self.votes[i].approved {
                count += 1;
            }
            i += 1;
        }
        count >= self.config.quorum_size
    }

    /// Completes a failover at `now`: the new primary is noted, the
    /// failover is counted, the votes are cleared, and the state is normal
    /// again.
    pub fn complete_failover_at(&mut self, new_primary: u64, now: u64)
        ensures
            final(self).wf(),
            final(self)@ == (FailoverModel {
                primary: Some(new_primary),
                state: FailoverState::Normal,
                last_failover: Some(now),
                failover_count: if old(self)@.failover_count < u32::MAX {
                    (old(self)@.failover_count + 1) as u32
                } else {
                    u32::MAX
                },
                votes: Seq::empty(),
                ..old(self)@
            }),
    {
        self.current_primary = Some(new_primary);
        self.state = FailoverState::Completed;
        self.last_failover = Some(now);
        if self.failover_count < u32::MAX {
            self.failover_count += 1;
        }
        self.votes.clear();
        assert(self.votes@ =~= Seq::<FailoverVote>::empty());
        self.state = FailoverState::Normal;
    }

    /// Completes a failover now.
    pub fn complete_failover(&mut self, new_primary: u64)
        ensures
            final(self).wf(),
            final(self)@.primary == Some(new_primary),
            final(self)@.state == FailoverState::Normal,
            final(self)@.last_failover is Some,
            final(self)@.votes.len() == 0,
            final(self)@.config == old(self)@.config,
            final(self)@.failover_count == if old(self)@.failover_count < u32::MAX {
                (old(self)@.failover_count + 1) as u32
            } else {
                u32::MAX
            },
    {
        let now = self.clock.now();
        self.complete_failover_at(new_primary, now);
    }

    /// Looks at the nodes that claim to be primary: more than one is a
    /// split brain, and the state says so from then on.
    pub fn detect_split_brain(&mut self, primaries: &[u64]) -> (r: bool)
        ensures
            r == (primaries@.len() > 1),
            final(self)@ == if r {
                FailoverModel { state: FailoverState::SplitBrain, ..old(self)@ }
            } else {
                old(self)@
            },
    {
        if primaries.len() > 1 {
            self.state = FailoverState::SplitBrain;
            true
        } else {
            false
        }
    }

    /// Starts a new hour of counting at `now`, where an hour has passed
    /// since the last one started.
    pub fn reset_rate_limit_at(&mut self, now: u64)
        ensures
            final(self)@ == old(self)@.rate_limit_reset(now),
    {
        if elapsed_secs(self.failover_count_reset, now) >= 3600 {
            self.failover_count = 0;
            self.failover_count_reset = now;
        }
    }

    /// Starts a new hour of counting, where an hour has passed as of the
    /// instant that the manager's clock shows.
    pub fn reset_rate_limit(&mut self)
        ensures
            exists|now: u64| final(self)@ == #[trigger] old(self)@.rate_limit_reset(now),
    {
        let now = self.clock.now();
        self.reset_rate_limit_at(now);
    }

    /// The number of votes.
    pub fn vote_count(&self) -> (n: usize)
        ensures
            n == self@.votes.len(),
    {
        self.votes.len()
    }
}

impl Default for FailoverManager {
    fn default() -> (m: FailoverManager)
        ensures
            m.wf(),
            m@.state == FailoverState::Normal,
            m@.votes.len() == 0,
    {
        FailoverManager::new(FailoverConfig::default())
    }
}

} // verus!
