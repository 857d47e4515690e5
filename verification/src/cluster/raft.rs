//! Raft consensus: the state of one node, and how it answers requests for
//! a vote and requests to append entries.

use vstd::prelude::*;
use super::node::NodeId;
use crate::counter::{wrapped_sum, wrapping_sum};
use crate::storage::entry::Clock;

verus! {

/// Raft configuration.
#[derive(Debug, Clone, Copy, PartialEq, Eq)]
pub struct RaftConfig {
    /// Election timeout range (least, greatest) in milliseconds.
    pub election_timeout: (u64, u64),
    /// Heartbeat interval in milliseconds.
    pub heartbeat_interval: u64,
    /// Log entries per batch.
    pub batch_size: usize,
    /// Whether a vote is asked for before an election is started.
    pub pre_vote: bool,
}

impl Default for RaftConfig {
    fn default() -> (c: RaftConfig)
        ensures
            c == (RaftConfig {
                election_timeout: (150, 300),
                heartbeat_interval: 50,
                batch_size: 100,
                pre_vote: true,
            }),
    {
        RaftConfig {
            election_timeout: (150, 300),
            heartbeat_interval: 50,
            batch_size: 100,
            pre_vote: true,
        }
    }
}

/// State of a node in the protocol.
#[derive(Debug, Clone, Copy, PartialEq, Eq, Structural)]
pub enum RaftState {
    Follower,
    Candidate,
    Leader,
    PreCandidate,
}

impl Default for RaftState {
    fn default() -> (s: RaftState)
        ensures
            s == RaftState::Follower,
    {
        RaftState::Follower
    }
}

/// Kinds of log entries.
#[derive(Debug, Clone, Copy, PartialEq, Eq, Structural)]
pub enum LogEntryType {
    /// A command of a client.
    Command,
    /// A change of the configuration.
    ConfigChange,
    /// Nothing, written by a new leader.
    NoOp,
}

/// An entry of the log.
#[derive(Debug, Clone)]
pub struct LogEntry {
    /// Term in which the entry was created.
    pub term: u64,
    /// Position in the log, counted from one.
    pub index: u64,
    /// Kind of entry.
    pub entry_type: LogEntryType,
    /// The command, serialized.
    pub data: Vec<u8>,
}

/// A log entry as a value.
pub struct LogEntryModel {
    pub term: u64,
    pub index: u64,
    pub entry_type: LogEntryType,
    pub data: Seq<u8>,
}

impl View for LogEntry {
    type V = LogEntryModel;

    open spec fn view(&self) -> LogEntryModel {
        LogEntryModel {
            term: self.term,
            index: self.index,
            entry_type: self.entry_type,
            data: self.data@,
        }
    }
}

impl LogEntry {
    /// A copy of this entry.
    pub fn duplicate(&self) -> (e: LogEntry)
        ensures
            e@ == self@,
    {
        LogEntry {
            term: self.term,
            index: self.index,
            entry_type: self.entry_type,
            data: self.data.clone(),
        }
    }
}

/// The entries that a log holds.
pub open spec fn log_view(log: Seq<LogEntry>) -> Seq<LogEntryModel> {
    Seq::new(log.len(), |i: int| log[i]@)
}

/// Request for a vote.
#[derive(Debug, Clone, Copy, PartialEq, Eq, Structural)]
pub struct VoteRequest {
    pub term: u64,
    pub candidate_id: NodeId,
    pub last_log_index: u64,
    pub last_log_term: u64,
    pub pre_vote: bool,
}

/// Answer to a request for a vote.
#[derive(Debug, Clone, Copy, PartialEq, Eq, Structural)]
pub struct VoteResponse {
    pub term: u64,
    pub vote_granted: bool,
    pub pre_vote: bool,
}

/// Request to append entries.
#[derive(Debug, Clone)]
pub struct AppendEntriesRequest {
    pub term: u64,
    pub leader_id: NodeId,
    pub prev_log_index: u64,
    pub prev_log_term: u64,
    pub entries: Vec<LogEntry>,
    pub leader_commit: u64,
}

/// Answer to a request to append entries.
#[derive(Debug, Clone, Copy, PartialEq, Eq, Structural)]
pub struct AppendEntriesResponse {
    pub term: u64,
    pub success: bool,
    pub match_index: u64,
}

/// The index of the last entry of a log, or zero for an empty log.
pub open spec fn last_index_of(log: Seq<LogEntryModel>) -> u64 {
    if log.len() == 0 {
        0
    } else {
        log.last().index
    }
}

/// The term of the last entry of a log, or zero for an empty log.
pub open spec fn last_term_of(log: Seq<LogEntryModel>) -> u64 {
    if log.len() == 0 {
        0
    } else {
        log.last().term
    }
}

/// Whether a candidate's log, as its request describes it, is at least as
/// up to date as a log whose last entry has the given term and index.
pub open spec fn log_up_to_date(req: VoteRequest, last_term: u64, last_index: u64) -> bool {
    req.last_log_term > last_term || (req.last_log_term == last_term && req.last_log_index
        >= last_index)
}

/// The log after one entry of a request was taken in: the entry replaces
/// the one at its index where the log reaches that far, and is appended
/// otherwise.
pub open spec fn with_entry(log: Seq<LogEntryModel>, e: LogEntryModel) -> Seq<LogEntryModel> {
    if 1 <= e.index <= log.len() {
        log.update(e.index - 1, e)
    } else {
        log.push(e)
    }
}

/// The log after the first `n` entries of a request were taken in, in
/// their order.
pub open spec fn with_entries(log: Seq<LogEntryModel>, entries: Seq<LogEntryModel>, n: int) -> Seq<
    LogEntryModel,
>
    decreases n,
{
    if n <= 0 {
        log
    } else {
        with_entry(with_entries(log, entries, n - 1), entries[n - 1])
    }
}

/// Whether the entry before the new ones is where the leader says it is:
/// there is none, or the log has an entry at that index with that term.
pub open spec fn log_matches(log: Seq<LogEntryModel>, prev_index: u64, prev_term: u64) -> bool {
    prev_index == 0 || (prev_index <= log.len() && log[prev_index - 1].term == prev_term)
}

/// The commit index after a request: raised to the leader's, but not
/// beyond the last entry of the log.
pub open spec fn commit_after(commit: u64, leader_commit: u64, last_index: u64) -> u64 {
    if leader_commit > commit {
        if leader_commit <= last_index {
            leader_commit
        } else {
            last_index
        }
    } else {
        commit
    }
}

/// State machine of one Raft node.
pub struct RaftNode {
    /// Node identifier.
    pub id: NodeId,
    /// Current term.
    pub current_term: u64,
    /// Current state.
    pub state: RaftState,
    /// The node voted for in the current term.
    pub voted_for: Option<NodeId>,
    /// Log entries.
    pub log: Vec<LogEntry>,
    /// Index of the last committed entry.
    pub commit_index: u64,
    /// Index of the last applied entry.
    pub last_applied: u64,
    /// The leader, if known.
    pub leader_id: Option<NodeId>,
    /// Next index to send to each follower (leader only).
    pub next_index: Vec<(NodeId, u64)>,
    /// Highest index known to be replicated on each follower (leader only).
    pub match_index: Vec<(NodeId, u64)>,
    /// Configuration.
    pub config: RaftConfig,
    /// When the last heartbeat came, on this node's clock.
    pub last_heartbeat: u64,
    /// When the next election is due, on this node's clock.
    pub election_deadline: u64,
    /// The clock that heartbeats are stamped by.
    pub clock: Clock,
}

impl RaftNode {
    /// The entries of this node's log.
    pub open spec fn entries(&self) -> Seq<LogEntryModel> {
        log_view(self.log@)
    }

    /// A follower in term zero with an empty log.
    pub fn new(id: NodeId, config: RaftConfig) -> (n: RaftNode)
        ensures
            n.id == id,
            n.current_term == 0,
            n.state == RaftState::Follower,
            n.voted_for is None,
            n.log@.len() == 0,
            n.commit_index == 0,
            n.last_applied == 0,
            n.leader_id is None,
            n.config == config,
    {
        let clock = Clock::new();
        let now = clock.now();
        RaftNode {
            id,
            current_term: 0,
            state: RaftState::Follower,
            voted_for: None,
            log: Vec::new(),
            commit_index: 0,
            last_applied: 0,
            leader_id: None,
            next_index: Vec::new(),
            match_index: Vec::new(),
            config,
            last_heartbeat: now,
            election_deadline: now,
            clock,
        }
    }

    /// The current term.
    pub fn term(&self) -> (t: u64)
        ensures
            t == self.current_term,
    {
        self.current_term
    }

    /// The current state.
    pub fn get_state(&self) -> (s: RaftState)
        ensures
            s == self.state,
    {
        self.state
    }

    /// Whether this node is the leader.
    pub fn is_leader(&self) -> (r: bool)
        ensures
            r == (self.state == RaftState::Leader),
    {
        self.state == RaftState::Leader
    }

    /// The index of the last log entry, or zero.
    pub fn last_log_index(&self) -> (i: u64)
        ensures
            i == last_index_of(self.entries()),
    {
        let n = self.log.len();
        if n == 0 {
            0
        } else {
            self.log[n - 1].index
        }
    }

    /// The term of the last log entry, or zero.
    pub fn last_log_term(&self) -> (t: u64)
        ensures
            t == last_term_of(self.entries()),
    {
        let n = self.log.len();
        if n == 0 {
            0
        } else {
            self.log[n - 1].term
        }
    }

    /// Becomes a candidate: enters the next term and votes for itself.
    pub fn become_candidate(&mut self)
        ensures
            final(self).state == RaftState::Candidate,
            final(self).current_term == wrapped_sum(old(self).current_term, 1),
            final(self).voted_for == Some(old(self).id),
            final(self).id == old(self).id,
            final(self).log == old(self).log,
            final(self).commit_index == old(self).commit_index,
            final(self).leader_id == old(self).leader_id,
    {
        self.state = RaftState::Candidate;
        self.current_term = wrapping_sum(self.current_term, 1);
        self.voted_for = Some(self.id);
    }

    /// Becomes the leader of the current term.
    pub fn become_leader(&mut self)
        ensures
            final(self).state == RaftState::Leader,
            final(self).leader_id == Some(old(self).id),
            final(self).id == old(self).id,
            final(self).current_term == old(self).current_term,
            final(self).voted_for == old(self).voted_for,
            final(self).log == old(self).log,
            final(self).commit_index == old(self).commit_index,
    {
        self.state = RaftState::Leader;
        self.leader_id = Some(self.id);
    }

    /// Becomes a follower in `term`, with no vote cast.
    pub fn become_follower(&mut self, term: u64, leader: Option<NodeId>)
        ensures
            final(self).state == RaftState::Follower,
            final(self).current_term == term,
            final(self).voted_for is None,
            final(self).leader_id == leader,
            final(self).id == old(self).id,
            final(self).log == old(self).log,
            final(self).commit_index == old(self).commit_index,
            final(self).last_applied == old(self).last_applied,
            final(self).config == old(self).config,
    {
        self.current_term = term;
        self.state = RaftState::Follower;
        self.voted_for = None;
        self.leader_id = leader;
    }

    /// Answers a request for a vote.
    ///
    /// A request of an older term is refused. A real request (no pre-vote)
    /// of a newer term makes this node a follower of that term first. The
    /// vote is granted where this node has cast none in the term, or has
    /// cast it for the same candidate, and the candidate's log is at least
    /// as up to date as its own. A real vote that is granted is recorded.
    pub fn handle_vote_request(&mut self, req: &VoteRequest) -> (resp: VoteResponse)
        ensures
            final(self).id == old(self).id,
            final(self).log == old(self).log,
            final(self).commit_index == old(self).commit_index,
            resp.pre_vote == req.pre_vote,
            resp.term == final(self).current_term,
            req.term < old(self).current_term ==> !resp.vote_granted && *final(self) == *old(self),
            req.term >= old(self).current_term ==> ({
                let stepped = req.term > old(self).current_term && !req.pre_vote;
                let vote = if stepped {
                    None
                } else {
                    old(self).voted_for
                };
                let granted = (vote is None || vote == Some(req.candidate_id)) && log_up_to_date(
                    *req,
                    last_term_of(old(self).entries()),
                    last_index_of(old(self).entries()),
                );
                &&& resp.vote_granted == granted
                &&& final(self).current_term == if stepped {
                    req.term
                } else {
                    old(self).current_term
                }
                &&& final(self).state == if stepped {
                    RaftState::Follower
                } else {
                    old(self).state
                }
                &&& final(self).voted_for == if granted && !req.pre_vote {
                    Some(req.candidate_id)
                } else {
                    vote
                }
                &&& final(self).leader_id == if stepped {
                    None
                } else {
                    old(self).leader_id
                }
            }),
    {
        let current_term = self.term();
        if req.term < current_term {
            return VoteResponse { term: current_term, vote_granted: false, pre_vote: req.pre_vote };
        }
        if req.term > current_term && !req.pre_vote {
            self.become_follower(req.term, None);
        }
        let can_vote = match self.voted_for {
            None => true,
            Some(v) => v == req.candidate_id,
        };
        let last_index = self.last_log_index();
        let last_term = self.last_log_term();
        let log_ok = req.last_log_term > last_term || (req.last_log_term == last_term
            && req.last_log_index >= last_index);
        let vote_granted = can_vote && log_ok;
        if vote_granted && !req.pre_vote {
            self.voted_for = Some(req.candidate_id);
        }
        VoteResponse { term: self.term(), vote_granted, pre_vote: req.pre_vote }
    }

    /// Answers a request to append entries at `now`.
    ///
    /// A request of an older term is refused and changes nothing. Any
    /// other request makes its sender the known leader and counts as a
    /// heartbeat; one of a newer term makes this node a follower of that
    /// term first. The request is then refused where the entry before the
    /// new ones is not where the leader says it is: with match index zero
    /// where the terms differ, and with the length of the log where the
    /// log is too short. Otherwise each new entry replaces the entry at
    /// its index or is appended, the commit index is raised to the
    /// leader's (but not beyond the last entry), and the answer carries
    /// the index of the last entry.
    pub fn handle_append_entries_at(&mut self, req: &AppendEntriesRequest, now: u64) -> (resp:
        AppendEntriesResponse)
        requires
            old(self).log@.len() + req.entries@.len() <= usize::MAX,
        ensures
            final(self).id == old(self).id,
            final(self).config == old(self).config,
            resp.term == final(self).current_term,
            req.term < old(self).current_term ==> !resp.success && resp.match_index == 0
                && *final(self) == *old(self),
            req.term >= old(self).current_term ==> ({
                let before = old(self).entries();
                let matches = log_matches(before, req.prev_log_index, req.prev_log_term);
                let after = with_entries(
                    before,
                    log_view(req.entries@),
                    req.entries@.len() as int,
                );
                &&& final(self).current_term == req.term
                &&& final(self).leader_id == Some(req.leader_id)
                &&& final(self).last_heartbeat == now
                &&& final(self).state == if req.term > old(self).current_term {
                    RaftState::Follower
                } else {
                    old(self).state
                }
                &&& final(self).voted_for == if req.term > old(self).current_term {
                    None
                } else {
                    old(self).voted_for
                }
                &&& resp.success == matches
                &&& !matches ==> final(self).entries() == before && final(self).commit_index
                    == old(self).commit_index && resp.match_index == if req.prev_log_index
                    <= before.len() {
                    0
                } else {
                    before.len() as u64
                }
                &&& matches ==> final(self).entries() == after && final(self).commit_index
                    == commit_after(
                    old(self).commit_index,
                    req.leader_commit,
                    last_index_of(after),
                ) && resp.match_index == last_index_of(after)
            }),
    {
        let current_term = self.term();
        if req.term < current_term {
            return AppendEntriesResponse { term: current_term, success: false, match_index: 0 };
        }
        let ghost before = self.entries();
        if req.term > current_term {
            self.become_follower(req.term, Some(req.leader_id));
        }
        self.leader_id = Some(req.leader_id);
        self.last_heartbeat = now;
        assert(self.entries() == before);
        if req.prev_log_index > 0 {
            if req.prev_log_index <= self.log.len() as u64 {
                let at = (req.prev_log_index - 1) as usize;
                if self.log[at].term != req.prev_log_term {
                    return AppendEntriesResponse {
                        term: self.term(),
                        success: false,
                        match_index: 0,
                    };
                }
            } else {
                return AppendEntriesResponse {
                    term: self.term(),
                    success: false,
                    match_index: self.log.len() as u64,
                };
            }
        }
        let ghost incoming = log_view(req.entries@);
        let mut i: usize = 0;
        while i < req.entries.len()
            invariant
                i <= req.entries@.len(),
                incoming == log_view(req.entries@),
                self.entries() == with_entries(before, incoming, i as int),
                self.log@.len() <= old(self).log@.len() + i,
                old(self).log@.len() + req.entries@.len() <= usize::MAX,
                self.id == old(self).id,
                self.config == old(self).config,
                self.current_term == req.term,
                self.leader_id == Some(req.leader_id),
                self.last_heartbeat == now,
                self.commit_index == old(self).commit_index,
                self.state == if req.term > old(self).current_term {
                    RaftState::Follower
                } else {
                    old(self).state
                },
                self.voted_for == if req.term > old(self).current_term {
                    None
                } else {
                    old(self).voted_for
                },
            decreases req.entries@.len() - i,
        {
            let entry = req.entries[i].duplicate();
            let ghost so_far = self.entries();
            assert(entry@ == incoming[i as int]);
            if entry.index >= 1 && entry.index <= self.log.len() as u64 {
                let at = (entry.index - 1) as usize;
                self.log.set(at, entry);
                assert(self.entries() =~= so_far.update(at as int, entry@));
            } else {
                self.log.push(entry);
                assert(self.entries() =~= so_far.push(entry@));
            }
            i += 1;
        }
        let last = self.last_log_index();
        if req.leader_commit > self.commit_index {
            self.commit_index = if req.leader_commit <= last {
                req.leader_commit
            } else {
                last
            };
        }
        AppendEntriesResponse { term: self.term(), success: true, match_index: last }
    }

    /// Answers a request to append entries now.
    pub fn handle_append_entries(&mut self, req: &AppendEntriesRequest) -> (resp:
        AppendEntriesResponse)
        requires
            old(self).log@.len() + req.entries@.len() <= usize::MAX,
        ensures
            final(self).id == old(self).id,
            resp.term == final(self).current_term,
            req.term < old(self).current_term ==> !resp.success && resp.match_index == 0
                && *final(self) == *old(self),
            req.term >= old(self).current_term ==> final(self).current_term == req.term
                && final(self).leader_id == Some(req.leader_id) && resp.success == log_matches(
                old(self).entries(),
                req.prev_log_index,
                req.prev_log_term,
            ),
            resp.success ==> final(self).entries() == with_entries(
                old(self).entries(),
                log_view(req.entries@),
                req.entries@.len() as int,
            ) && resp.match_index == last_index_of(final(self).entries()),
    {
        let now = self.clock.now();
        self.handle_append_entries_at(req, now)
    }

    /// Appends a command to the log of a leader and returns its index: one
    /// more than the length of the log. A node that is not the leader
    /// appends nothing.
    pub fn append_command(&mut self, data: Vec<u8>) -> (r: Option<u64>)
        requires
            old(self).log@.len() < usize::MAX,
        ensures
            final(self).id == old(self).id,
            final(self).current_term == old(self).current_term,
            final(self).state == old(self).state,
            old(self).state != RaftState::Leader ==> r is None && *final(self) == *old(self),
            old(self).state == RaftState::Leader ==> r == Some(
                (old(self).log@.len() + 1) as u64,
            ) && final(self).entries() == old(self).entries().push(
                LogEntryModel {
                    term: old(self).current_term,
                    index: (old(self).log@.len() + 1) as u64,
                    entry_type: LogEntryType::Command,
                    data: data@,
                },
            ),
    {
        if !self.is_leader() {
            return None;
        }
        let index = self.log.len() as u64 + 1;
        let term = self.term();
        let ghost before = self.entries();
        let entry = LogEntry { term, index, entry_type: LogEntryType::Command, data };
        self.log.push(entry);
        assert(self.entries() =~= before.push(entry@));
        Some(index)
    }
}

} // verus!
