//! Nodes of a cluster and the topology they form.

use vstd::prelude::*;
use crate::storage::entry::Clock;

verus! {

/// Unique node identifier.
pub type NodeId = u64;

/// Nanoseconds in a millisecond.
pub const NANOS_PER_MILLI: u64 = 1_000_000;

/// Role of a node in the cluster.
#[derive(Debug, Clone, Copy, PartialEq, Eq, Structural)]
pub enum NodeRole {
    /// Handles writes.
    Leader,
    /// Replica.
    Follower,
    /// Stands in an election.
    Candidate,
    /// Replica without a vote.
    Learner,
}

impl Default for NodeRole {
    fn default() -> (r: NodeRole)
        ensures
            r == NodeRole::Follower,
    {
        NodeRole::Follower
    }
}

/// Health of a node.
#[derive(Debug, Clone, Copy, PartialEq, Eq, Structural)]
pub enum NodeState {
    /// Responding.
    Healthy,
    /// Suspected to be down.
    Suspect,
    /// Confirmed down.
    Down,
    /// Catching up on data.
    Syncing,
    /// Taken out for maintenance.
    Maintenance,
}

impl Default for NodeState {
    fn default() -> (s: NodeState)
        ensures
            s == NodeState::Healthy,
    {
        NodeState::Healthy
    }
}

/// What is known of one node.
#[derive(Debug, Clone)]
pub struct Node {
    /// Unique node identifier.
    pub id: NodeId,
    /// Address for client connections.
    pub addr: String,
    /// Address for cluster traffic.
    pub cluster_addr: String,
    /// Current role.
    pub role: NodeRole,
    /// Current health.
    pub state: NodeState,
    /// When the last heartbeat came, in nanoseconds on the node's clock.
    pub last_heartbeat: u64,
    /// How far the node has replicated.
    pub replication_offset: u64,
    /// Higher priority makes a likelier leader.
    pub priority: u32,
    /// Labels.
    pub tags: Vec<String>,
    /// The clock that heartbeats are stamped by.
    pub clock: Clock,
}

/// Whether more than `timeout_ms` whole milliseconds lie between a
/// heartbeat and `now`.
pub open spec fn heartbeat_overdue(last_heartbeat: u64, now: u64, timeout_ms: u64) -> bool {
    now >= last_heartbeat && (now - last_heartbeat) / (NANOS_PER_MILLI as int) > timeout_ms
}

impl Node {
    /// A healthy follower of priority 100, heard from just now.
    pub fn new(id: NodeId, addr: &str, cluster_addr: &str) -> (n: Node)
        ensures
            n.id == id,
            n.addr@ == addr@,
            n.cluster_addr@ == cluster_addr@,
            n.role == NodeRole::Follower,
            n.state == NodeState::Healthy,
            n.replication_offset == 0,
            n.priority == 100,
            n.tags@.len() == 0,
    {
        let clock = Clock::new();
        Node {
            id,
            addr: String::from_str(addr),
            cluster_addr: String::from_str(cluster_addr),
            role: NodeRole::Follower,
            state: NodeState::Healthy,
            last_heartbeat: clock.now(),
            replication_offset: 0,
            priority: 100,
            tags: Vec::new(),
            clock,
        }
    }

    /// A healthy leader.
    pub fn leader(id: NodeId, addr: &str, cluster_addr: &str) -> (n: Node)
        ensures
            n.id == id,
            n.role == NodeRole::Leader,
            n.state == NodeState::Healthy,
            n.replication_offset == 0,
            n.priority == 100,
    {
        let mut node = Node::new(id, addr, cluster_addr);
        node.role = NodeRole::Leader;
        node
    }

    /// Whether the node is the leader.
    pub fn is_leader(&self) -> (r: bool)
        ensures
            r == (self.role == NodeRole::Leader),
    {
        self.role == NodeRole::Leader
    }

    /// Whether the node is healthy.
    pub fn is_healthy(&self) -> (r: bool)
        ensures
            r == (self.state == NodeState::Healthy),
    {
        self.state == NodeState::Healthy
    }

    /// Records a heartbeat at `now`: a suspect node is healthy again.
    pub fn heartbeat_at(&mut self, now: u64)
        ensures
            final(self).last_heartbeat == now,
            final(self).state == if old(self).state == NodeState::Suspect {
                NodeState::Healthy
            } else {
                old(self).state
            },
            final(self).id == old(self).id,
            final(self).role == old(self).role,
            final(self).replication_offset == old(self).replication_offset,
            final(self).priority == old(self).priority,
    {
        self.last_heartbeat = now;
        if self.state == NodeState::Suspect {
            self.state = NodeState::Healthy;
        }
    }

    /// Records a heartbeat now.
    pub fn heartbeat(&mut self)
        ensures
            final(self).state == if old(self).state == NodeState::Suspect {
                NodeState::Healthy
            } else {
                old(self).state
            },
            final(self).id == old(self).id,
            final(self).role == old(self).role,
    {
        let now = self.clock.now();
        self.heartbeat_at(now);
    }

    /// Whether, at `now`, the last heartbeat is more than `timeout_ms`
    /// milliseconds old.
    pub fn is_suspect_at(&self, now: u64, timeout_ms: u64) -> (r: bool)
        ensures
            r == heartbeat_overdue(self.last_heartbeat, now, timeout_ms),
    {
        now >= self.last_heartbeat && (now - self.last_heartbeat) / NANOS_PER_MILLI > timeout_ms
    }

    /// Whether the last heartbeat is more than `timeout_ms` milliseconds
    /// old, as of the instant that the node's clock shows.
    pub fn is_suspect(&self, timeout_ms: u64) -> (r: bool)
        ensures
            exists|now: u64|
                r == #[trigger] heartbeat_overdue(self.last_heartbeat, now, timeout_ms),
            timeout_ms >= u64::MAX / NANOS_PER_MILLI ==> !r,
    {
        let now = self.clock.now();
        self.is_suspect_at(now, timeout_ms)
    }

    /// Marks the node as down.
    pub fn mark_down(&mut self)
        ensures
            final(self).state == NodeState::Down,
            final(self).id == old(self).id,
            final(self).role == old(self).role,
    {
        self.state = NodeState::Down;
    }

    /// How far the node is behind a leader at `leader_offset`: never
    /// negative.
    pub fn replication_lag(&self, leader_offset: u64) -> (lag: u64)
        ensures
            lag == if leader_offset >= self.replication_offset {
                leader_offset - self.replication_offset
            } else {
                0
            },
    {
        if leader_offset >= self.replication_offset {
            leader_offset - self.replication_offset
        } else {
            0
        }
    }

    /// The same node with one more tag.
    pub fn with_tag(self, tag: &str) -> (n: Node)
        ensures
            n.tags@.len() == self.tags@.len() + 1,
            n.tags@[self.tags@.len() as int]@ == tag@,
            n.id == self.id,
            n.role == self.role,
            n.state == self.state,
            n.priority == self.priority,
    {
        let mut n = self;
        n.tags.push(String::from_str(tag));
        n
    }

    /// The same node with another priority.
    pub fn with_priority(self, priority: u32) -> (n: Node)
        ensures
            n.priority == priority,
            n.id == self.id,
            n.role == self.role,
            n.state == self.state,
    {
        let mut n = self;
        n.priority = priority;
        n
    }
}

/// The epoch after one more change: one more, up to the greatest number
/// that the counter holds.
pub open spec fn next_epoch(epoch: u64) -> u64 {
    if epoch < u64::MAX {
        (epoch + 1) as u64
    } else {
        epoch
    }
}

/// Counts one more change.
pub fn bump_epoch(epoch: u64) -> (e: u64)
    ensures
        e == next_epoch(epoch),
{
    if epoch < u64::MAX {
        epoch + 1
    } else {
        epoch
    }
}

/// The nodes of a cluster.
#[derive(Debug, Clone)]
pub struct ClusterTopology {
    /// All nodes, in the order in which they were added.
    pub nodes: Vec<Node>,
    /// The leader, if known.
    pub leader_id: Option<NodeId>,
    /// Counts the changes of the topology.
    pub epoch: u64,
}

/// The number of healthy nodes among the first `n`.
pub open spec fn healthy_among(nodes: Seq<Node>, n: int) -> int
    decreases n,
{
    if n <= 0 {
        0
    } else {
        healthy_among(nodes, n - 1) + if nodes[n - 1].state == NodeState::Healthy {
            1int
        } else {
            0int
        }
    }
}

/// The healthy followers among the first `n` nodes, in their order.
pub open spec fn followers_among(nodes: Seq<Node>, n: int) -> Seq<Node>
    decreases n,
{
    if n <= 0 {
        Seq::empty()
    } else if nodes[n - 1].role == NodeRole::Follower && nodes[n - 1].state == NodeState::Healthy {
        followers_among(nodes, n - 1).push(nodes[n - 1])
    } else {
        followers_among(nodes, n - 1)
    }
}

/// There are no more healthy nodes than nodes.
proof fn lemma_healthy_bound(nodes: Seq<Node>, n: int)
    requires
        0 <= n <= nodes.len(),
    ensures
        0 <= healthy_among(nodes, n) <= n,
    decreases n,
{
    if n > 0 {
        lemma_healthy_bound(nodes, n - 1);
    }
}

impl ClusterTopology {
    /// An empty topology.
    pub fn new() -> (t: ClusterTopology)
        ensures
            t.nodes@.len() == 0,
            t.leader_id is None,
            t.epoch == 0,
    {
        ClusterTopology { nodes: Vec::new(), leader_id: None, epoch: 0 }
    }

    /// Adds a node; a leader becomes the known leader.
    pub fn add_node(&mut self, node: Node)
        ensures
            final(self).nodes@ == old(self).nodes@.push(node),
            final(self).epoch == next_epoch(old(self).epoch),
            final(self).leader_id == if node.role == NodeRole::Leader {
                Some(node.id)
            } else {
                old(self).leader_id
            },
    {
        if node.is_leader() {
            self.leader_id = Some(node.id);
        }
        self.nodes.push(node);
        self.epoch = bump_epoch(self.epoch);
    }

    fn find(&self, node_id: NodeId) -> (r: Option<usize>)
        ensures
            match r {
                Some(i) => i < self.nodes@.len() && self.nodes@[i as int].id == node_id && forall|
                    j: int,
                | 0 <= j < i ==> self.nodes@[j].id != node_id,
                None => forall|j: int| 0 <= j < self.nodes@.len() ==> self.nodes@[j].id != node_id,
            },
    {
        let mut i: usize = 0;
        while i < self.nodes.len()
            invariant
                i <= self.nodes@.len(),
                forall|j: int| 0 <= j < i ==> self.nodes@[j].id != node_id,
            decreases self.nodes@.len() - i,
        {
            if self.nodes[i].id == node_id {
                return Some(i);
            }
            i += 1;
        }
        None
    }

    /// Removes the first node with this identifier and returns it.
    pub fn remove_node(&mut self, node_id: NodeId) -> (r: Option<Node>)
        ensures
            match r {
                Some(node) => {
                    &&& node.id == node_id
                    &&& final(self).nodes@.len() == old(self).nodes@.len() - 1
                    &&& final(self).epoch == next_epoch(old(self).epoch)
                    &&& final(self).leader_id == if old(self).leader_id == Some(node_id) {
                        None
                    } else {
                        old(self).leader_id
                    }
                    &&& exists|i: int|
                        0 <= i < old(self).nodes@.len() && old(self).nodes@[i] == node
                            && final(self).nodes@ == old(self).nodes@.remove(i) && forall|j: int|
                            0 <= j < i ==> old(self).nodes@[j].id != node_id
                },
                None => {
                    &&& *final(self) == *old(self)
                    &&& forall|j: int|
                        0 <= j < old(self).nodes@.len() ==> old(self).nodes@[j].id != node_id
                },
            },
    {
        match self.find(node_id) {
            Some(pos) => {
                self.epoch = bump_epoch(self.epoch);
                if self.leader_id == Some(node_id) {
                    self.leader_id = None;
                }
                let node = self.nodes.remove(pos);
                Some(node)
            },
            None => None,
        }
    }

    /// The first node with this identifier.
    pub fn get_node(&self, node_id: NodeId) -> (r: Option<&Node>)
        ensures
            match r {
                Some(node) => node.id == node_id && exists|i: int|
                    0 <= i < self.nodes@.len() && self.nodes@[i] == *node && forall|j: int|
                        0 <= j < i ==> self.nodes@[j].id != node_id,
                None => forall|j: int| 0 <= j < self.nodes@.len() ==> self.nodes@[j].id != node_id,
            },
    {
        match self.find(node_id) {
            Some(i) => Some(&self.nodes[i]),
            None => None,
        }
    }

    /// The first node with this identifier, to change it.
    pub fn get_node_mut(&mut self, node_id: NodeId) -> (r: Option<&mut Node>)
        ensures
            final(self).leader_id == old(self).leader_id,
            final(self).epoch == old(self).epoch,
            match r {
                Some(node) => exists|i: int|
                    0 <= i < old(self).nodes@.len() && old(self).nodes@[i] == *node && node.id
                        == node_id && final(self).nodes@ == old(self).nodes@.update(
                        i,
                        *final(node),
                    ) && forall|j: int| 0 <= j < i ==> old(self).nodes@[j].id != node_id,
                None => final(self).nodes@ == old(self).nodes@ && forall|j: int|
                    0 <= j < old(self).nodes@.len() ==> old(self).nodes@[j].id != node_id,
            },
    {
        match self.find(node_id) {
            Some(i) => Some(&mut self.nodes[i]),
            None => None,
        }
    }

    /// The leader's node, where the leader is known and present: the
    /// first node with the leader's identifier.
    pub fn leader(&self) -> (r: Option<&Node>)
        ensures
            self.leader_id is None ==> r is None,
            self.leader_id matches Some(id) ==> match r {
                Some(node) => node.id == id && exists|i: int|
                    0 <= i < self.nodes@.len() && self.nodes@[i] == *node && forall|j: int|
                        0 <= j < i ==> self.nodes@[j].id != id,
                None => forall|j: int| 0 <= j < self.nodes@.len() ==> self.nodes@[j].id != id,
            },
    {
        match self.leader_id {
            Some(id) => self.get_node(id),
            None => None,
        }
    }

    /// The healthy followers, in the order of the topology.
    pub fn healthy_followers(&self) -> (r: Vec<&Node>)
        ensures
            r@.len() == followers_among(self.nodes@, self.nodes@.len() as int).len(),
            forall|i: int|
                0 <= i < r@.len() ==> *(#[trigger] r@[i]) == followers_among(
                    self.nodes@,
                    self.nodes@.len() as int,
                )[i],
    {
        let mut found: Vec<&Node> = Vec::new();
        let mut i: usize = 0;
        while i < self.nodes.len()
            invariant
                i <= self.nodes@.len(),
                found@.len() == followers_among(self.nodes@, i as int).len(),
                forall|j: int|
                    0 <= j < found@.len() ==> *(#[trigger] found@[j]) == followers_among(
                        self.nodes@,
                        i as int,
                    )[j],
            decreases self.nodes@.len() - i,
        {
            let node = &self.nodes[i];
            if node.role == NodeRole::Follower && node.is_healthy() {
                found.push(node);
            }
            i += 1;
        }
        found
    }

    /// The number of healthy nodes.
    pub fn healthy_count(&self) -> (n: usize)
        ensures
            n == healthy_among(self.nodes@, self.nodes@.len() as int),
    {
        let mut count: usize = 0;
        let mut i: usize = 0;
        while i < self.nodes.len()
            invariant
                i <= self.nodes@.len(),
                count == healthy_among(self.nodes@, i as int),
                count <= i,
            decreases self.nodes@.len() - i,
        {
            if self.nodes[i].is_healthy() {
                count += 1;
            }
            i += 1;
        }
        count
    }

    /// Whether more than half of the nodes are healthy.
    pub fn has_quorum(&self) -> (r: bool)
        ensures
            r == (healthy_among(self.nodes@, self.nodes@.len() as int) > self.nodes@.len() / 2),
    {
        let total = self.nodes.len();
        let healthy = self.healthy_count();
        healthy > total / 2
    }
}

} // verus!
