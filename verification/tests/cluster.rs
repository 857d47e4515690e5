use celrix::cluster::node::{ClusterTopology, Node, NodeRole, NodeState};
use celrix::cluster::raft::{
    AppendEntriesRequest, LogEntry, LogEntryType, RaftConfig, RaftNode, RaftState, VoteRequest,
};
use celrix::cluster::replication::{
    ReplicaState, ReplicationConfig, ReplicationManager, ReplicationMode, ReplicationOp,
};
use celrix::cluster::sharding::{crc16, ShardManager, Slot, SlotRange, TOTAL_SLOTS};

#[test]
fn test_node_roles() {
    let mut node = Node::new(1, "127.0.0.1:6380", "127.0.0.1:16380");
    assert_eq!(node.role, NodeRole::Follower);
    assert!(!node.is_leader());

    node.role = NodeRole::Leader;
    assert!(node.is_leader());
}

#[test]
fn test_cluster_topology() {
    let mut topology = ClusterTopology::new();

    topology.add_node(Node::leader(1, "127.0.0.1:6380", "127.0.0.1:16380"));
    topology.add_node(Node::new(2, "127.0.0.1:6381", "127.0.0.1:16381"));
    topology.add_node(Node::new(3, "127.0.0.1:6382", "127.0.0.1:16382"));

    assert_eq!(topology.leader_id, Some(1));
    assert_eq!(topology.nodes.len(), 3);
    assert!(topology.has_quorum());
}

#[test]
fn node_test_replication_lag() {
    let mut node = Node::new(1, "127.0.0.1:6380", "127.0.0.1:16380");
    node.replication_offset = 1000;

    assert_eq!(node.replication_lag(1500), 500);
    assert_eq!(node.replication_lag(1000), 0);
    assert_eq!(node.replication_lag(500), 0);
}

#[test]
fn topology_removal_and_quorum() {
    let mut topology = ClusterTopology::new();
    topology.add_node(Node::leader(1, "a", "b"));
    topology.add_node(Node::new(2, "a", "b"));
    topology.add_node(Node::new(3, "a", "b"));
    assert_eq!(topology.epoch, 3);
    assert_eq!(topology.healthy_count(), 3);
    topology.nodes[1].mark_down();
    topology.nodes[2].mark_down();
    assert_eq!(topology.nodes[1].state, NodeState::Down);
    assert_eq!(topology.healthy_count(), 1);
    assert!(!topology.has_quorum());
    let removed = topology.remove_node(1).unwrap();
    assert_eq!(removed.id, 1);
    assert_eq!(topology.leader_id, None);
    assert_eq!(topology.epoch, 4);
    assert!(topology.remove_node(9).is_none());
    assert_eq!(topology.epoch, 4);
    assert!(topology.get_node(2).is_some());
    assert!(topology.leader().is_none());
}

#[test]
fn node_suspicion_by_heartbeat_age() {
    let mut node = Node::new(1, "a", "b");
    node.heartbeat_at(1_000_000_000);
    assert!(!node.is_suspect_at(1_000_000_000 + 5_000_000, 5));
    assert!(node.is_suspect_at(1_000_000_000 + 6_000_000, 5));
    assert!(!node.is_suspect_at(999, 0));
    node.state = NodeState::Suspect;
    node.heartbeat_at(7);
    assert_eq!(node.state, NodeState::Healthy);
    assert_eq!(node.last_heartbeat, 7);
}

#[test]
fn test_raft_node_creation() {
    let node = RaftNode::new(1, RaftConfig::default());
    assert_eq!(node.id, 1);
    assert_eq!(node.term(), 0);
    assert_eq!(node.get_state(), RaftState::Follower);
}

#[test]
fn test_become_candidate() {
    let mut node = RaftNode::new(1, RaftConfig::default());
    node.become_candidate();

    assert_eq!(node.get_state(), RaftState::Candidate);
    assert_eq!(node.term(), 1);
    assert_eq!(node.voted_for, Some(1));
}

#[test]
fn test_become_leader() {
    let mut node = RaftNode::new(1, RaftConfig::default());
    node.become_candidate();
    node.become_leader();

    assert!(node.is_leader());
    assert_eq!(node.leader_id, Some(1));
}

#[test]
fn test_vote_request() {
    let mut node = RaftNode::new(1, RaftConfig::default());

    let req = VoteRequest { term: 1, candidate_id: 2, last_log_index: 0, last_log_term: 0, pre_vote: false };

    let resp = node.handle_vote_request(&req);
    assert!(resp.vote_granted);
}

#[test]
fn vote_rules() {
    let mut node = RaftNode::new(1, RaftConfig::default());
    node.become_candidate();
    node.become_candidate();
    assert_eq!(node.term(), 2);
    // an older term is refused and changes nothing
    let old = VoteRequest { term: 1, candidate_id: 2, last_log_index: 0, last_log_term: 0, pre_vote: false };
    let resp = node.handle_vote_request(&old);
    assert!(!resp.vote_granted);
    assert_eq!(resp.term, 2);
    assert_eq!(node.voted_for, Some(1));
    // the same term: the vote is cast for itself already
    let same = VoteRequest { term: 2, candidate_id: 2, last_log_index: 0, last_log_term: 0, pre_vote: false };
    assert!(!node.handle_vote_request(&same).vote_granted);
    // a newer term: step down and vote
    let newer = VoteRequest { term: 3, candidate_id: 2, last_log_index: 0, last_log_term: 0, pre_vote: false };
    let resp = node.handle_vote_request(&newer);
    assert!(resp.vote_granted);
    assert_eq!(resp.term, 3);
    assert_eq!(node.get_state(), RaftState::Follower);
    assert_eq!(node.voted_for, Some(2));
    // a pre-vote of a newer term neither steps down nor records
    let pre = VoteRequest { term: 9, candidate_id: 2, last_log_index: 0, last_log_term: 0, pre_vote: true };
    let resp = node.handle_vote_request(&pre);
    assert!(resp.vote_granted);
    assert!(resp.pre_vote);
    assert_eq!(node.term(), 3);
    // a candidate whose log is behind gets no vote
    node.become_leader();
    assert_eq!(node.append_command(vec![1]), Some(1));
    let behind = VoteRequest { term: 4, candidate_id: 5, last_log_index: 0, last_log_term: 0, pre_vote: false };
    let resp = node.handle_vote_request(&behind);
    assert!(!resp.vote_granted);
    assert_eq!(node.term(), 4);
    assert_eq!(node.voted_for, None);
}

fn entry(term: u64, index: u64, byte: u8) -> LogEntry {
    LogEntry { term, index, entry_type: LogEntryType::Command, data: vec![byte] }
}

#[test]
fn append_entries_rules() {
    let mut node = RaftNode::new(1, RaftConfig::default());
    let first = AppendEntriesRequest {
        term: 1,
        leader_id: 7,
        prev_log_index: 0,
        prev_log_term: 0,
        entries: vec![entry(1, 1, 10), entry(1, 2, 20)],
        leader_commit: 1,
    };
    let resp = node.handle_append_entries_at(&first, 55);
    assert!(resp.success);
    assert_eq!(resp.term, 1);
    assert_eq!(resp.match_index, 2);
    assert_eq!(node.leader_id, Some(7));
    assert_eq!(node.last_heartbeat, 55);
    assert_eq!(node.commit_index, 1);
    assert_eq!(node.log.len(), 2);
    assert_eq!(node.last_log_index(), 2);
    assert_eq!(node.last_log_term(), 1);

    // an older term is refused
    let stale = AppendEntriesRequest {
        term: 0,
        leader_id: 8,
        prev_log_index: 0,
        prev_log_term: 0,
        entries: vec![],
        leader_commit: 0,
    };
    let resp = node.handle_append_entries_at(&stale, 56);
    assert!(!resp.success);
    assert_eq!(resp.match_index, 0);
    assert_eq!(node.leader_id, Some(7));
    assert_eq!(node.last_heartbeat, 55);

    // the log is too short for the previous entry
    let gap = AppendEntriesRequest {
        term: 1,
        leader_id: 7,
        prev_log_index: 5,
        prev_log_term: 1,
        entries: vec![entry(1, 6, 60)],
        leader_commit: 1,
    };
    let resp = node.handle_append_entries_at(&gap, 57);
    assert!(!resp.success);
    assert_eq!(resp.match_index, 2);
    assert_eq!(node.log.len(), 2);

    // the previous entry has another term
    let conflict = AppendEntriesRequest {
        term: 2,
        leader_id: 9,
        prev_log_index: 2,
        prev_log_term: 9,
        entries: vec![],
        leader_commit: 2,
    };
    let resp = node.handle_append_entries_at(&conflict, 58);
    assert!(!resp.success);
    assert_eq!(resp.match_index, 0);
    assert_eq!(resp.term, 2);
    assert_eq!(node.get_state(), RaftState::Follower);

    // an entry at an index that is there replaces it; the commit index
    // stops at the last entry
    let overwrite = AppendEntriesRequest {
        term: 2,
        leader_id: 9,
        prev_log_index: 1,
        prev_log_term: 1,
        entries: vec![entry(2, 2, 21), entry(2, 3, 30)],
        leader_commit: 10,
    };
    let resp = node.handle_append_entries_at(&overwrite, 59);
    assert!(resp.success);
    assert_eq!(resp.match_index, 3);
    assert_eq!(node.log.len(), 3);
    assert_eq!(node.log[1].data, vec![21]);
    assert_eq!(node.log[1].term, 2);
    assert_eq!(node.commit_index, 3);
    let resp = node.handle_append_entries(&AppendEntriesRequest {
        term: 2,
        leader_id: 9,
        prev_log_index: 3,
        prev_log_term: 2,
        entries: vec![],
        leader_commit: 0,
    });
    assert!(resp.success);
}

#[test]
fn only_a_leader_appends_commands() {
    let mut node = RaftNode::new(1, RaftConfig::default());
    assert_eq!(node.append_command(vec![1, 2]), None);
    assert!(node.log.is_empty());
    node.become_candidate();
    node.become_leader();
    assert_eq!(node.append_command(vec![1, 2]), Some(1));
    assert_eq!(node.append_command(vec![3]), Some(2));
    assert_eq!(node.log[1].index, 2);
    assert_eq!(node.log[1].term, 1);
    assert_eq!(node.log[1].entry_type, LogEntryType::Command);
}

#[test]
fn test_replication_manager() {
    let mut manager = ReplicationManager::new(ReplicationConfig::default());

    let seq1 = manager.record(ReplicationOp::SetKey, b"key1=value1".to_vec());
    let seq2 = manager.record(ReplicationOp::SetKey, b"key2=value2".to_vec());

    assert_eq!(seq1, 1);
    assert_eq!(seq2, 2);
    assert_eq!(manager.offset(), 2);
}

#[test]
fn replication_test_replication_lag() {
    let mut manager = ReplicationManager::new(ReplicationConfig::default());
    manager.add_replica(1);
    manager.add_replica(2);

    manager.record(ReplicationOp::SetKey, b"data".to_vec());
    manager.record(ReplicationOp::SetKey, b"data".to_vec());

    manager.ack(1, 2);
    assert_eq!(manager.get_lag(1), Some(0));

    assert_eq!(manager.get_lag(2), Some(2));
}

#[test]
fn test_durability_check() {
    let config = ReplicationConfig::default().with_mode(ReplicationMode::SemiSync);
    let mut manager = ReplicationManager::new(config);

    manager.add_replica(1);
    manager.add_replica(2);

    let offset = manager.record(ReplicationOp::SetKey, b"data".to_vec());

    assert!(!manager.is_durable(offset));

    manager.ack(1, offset);
    assert!(manager.is_durable(offset));
}

#[test]
fn replication_modes_and_counts() {
    let mut sync = ReplicationManager::new(ReplicationConfig::default().with_mode(ReplicationMode::Sync));
    sync.add_replica(1);
    sync.add_replica(2);
    let offset = sync.record(ReplicationOp::Del, vec![]);
    sync.ack(1, offset);
    assert!(!sync.is_durable(offset));
    sync.ack(2, offset);
    assert!(sync.is_durable(offset));
    assert_eq!(sync.min_confirmed_offset(), 1);
    assert_eq!(sync.total_lag(), 0);
    assert_eq!(sync.replica_count(), 2);
    assert_eq!(sync.healthy_replica_count(), 0);
    sync.record(ReplicationOp::Expire, vec![]);
    sync.record(ReplicationOp::Expire, vec![]);
    assert_eq!(sync.total_lag(), 4);
    assert_eq!(sync.get_lag(3), None);
    sync.ack(3, 1);
    assert_eq!(sync.replica_count(), 2);
    sync.remove_replica(1);
    assert_eq!(sync.replica_count(), 1);
    assert_eq!(sync.get_lag(1), None);

    let asynchronous = ReplicationManager::new(ReplicationConfig::default());
    assert!(asynchronous.is_durable(99));
    assert_eq!(asynchronous.min_confirmed_offset(), 0);

    let two = ReplicationManager::new(ReplicationConfig::default().with_min_replicas(2).with_mode(ReplicationMode::SemiSync));
    assert!(!two.is_durable(0));
}

#[test]
fn replication_entries_after_an_offset() {
    let mut manager = ReplicationManager::new(ReplicationConfig::default());
    for i in 0..5u8 {
        manager.record_at(ReplicationOp::SetKey, vec![i], 1000 + i as u64);
    }
    let got = manager.get_entries(2, 10);
    assert_eq!(got.len(), 3);
    assert_eq!(got[0].seq, 3);
    assert_eq!(got[0].data, vec![2]);
    assert_eq!(got[0].timestamp_ms, 1002);
    assert_eq!(got[2].seq, 5);
    let limited = manager.get_entries(0, 2);
    assert_eq!(limited.len(), 2);
    assert_eq!(limited[1].seq, 2);
    assert!(manager.get_entries(5, 10).is_empty());
}

#[test]
fn replication_buffer_is_trimmed() {
    let config = ReplicationConfig { buffer_size: 1000, ..ReplicationConfig::default() };
    let mut manager = ReplicationManager::new(config);
    for _ in 0..11 {
        manager.record(ReplicationOp::SetKey, vec![]);
    }
    // eleven entries are more than a hundredth of the buffer size: five stay
    let kept = manager.get_entries(0, 100);
    assert_eq!(kept.len(), 5);
    assert_eq!(kept[0].seq, 7);
    assert_eq!(kept[4].seq, 11);
}

#[test]
fn replica_state_update() {
    let mut r = ReplicaState::new(4, 10);
    assert_eq!(r, ReplicaState { node_id: 4, offset: 0, lag: 0, last_ack: 10, connected: false });
    r.update_offset(7, 10, 20);
    assert_eq!(r, ReplicaState { node_id: 4, offset: 7, lag: 3, last_ack: 20, connected: false });
    r.update_offset(12, 10, 21);
    assert_eq!(r.lag, 0);
}

#[test]
fn test_slot_from_key() {
    let slot = Slot::from_key(b"hello");
    assert!(slot.0 < TOTAL_SLOTS);
}

#[test]
fn test_slot_range() {
    let range = SlotRange::new(0, 5460);
    assert!(range.contains(Slot(0)));
    assert!(range.contains(Slot(5460)));
    assert!(!range.contains(Slot(5461)));
    assert_eq!(range.count(), 5461);
}

#[test]
fn test_distribute_slots() {
    let mut manager = ShardManager::new();
    manager.distribute_slots(&[1, 2, 3]);

    assert_eq!(manager.assigned_slot_count(), TOTAL_SLOTS as usize);

    let node1_slots = manager.get_node_slot_count(1);
    let node2_slots = manager.get_node_slot_count(2);
    let node3_slots = manager.get_node_slot_count(3);

    assert!(node1_slots > 5000);
    assert!(node2_slots > 5000);
    assert!(node3_slots > 5000);
}

#[test]
fn test_migration() {
    let mut manager = ShardManager::new();
    manager.assign_slots(1, SlotRange::new(0, 100));

    assert_eq!(manager.get_node_for_slot(Slot(50)), Some(1));

    manager.start_migration(50, 2);
    assert_eq!(manager.is_migrating(50), Some(2));

    manager.complete_migration(50);
    assert_eq!(manager.get_node_for_slot(Slot(50)), Some(2));
    assert_eq!(manager.is_migrating(50), None);
}

#[test]
fn crc16_known_values() {
    assert_eq!(crc16(b""), 0);
    assert_eq!(crc16(b"123456789"), 0x31C3);
    assert_eq!(crc16(b"A"), 0x58E5);
    assert_eq!(Slot::from_key(b"123456789"), Slot(0x31C3 % 16384));
}

#[test]
fn slots_are_dealt_out_evenly() {
    let mut manager = ShardManager::new();
    manager.distribute_slots(&[]);
    assert_eq!(manager.assigned_slot_count(), 0);
    assert_eq!(manager.epoch(), 0);
    manager.distribute_slots(&[10, 20, 30]);
    assert_eq!(manager.epoch(), 3);
    // 16384 = 3 * 5461 + 1: the first node gets one more
    assert_eq!(manager.get_node_slot_count(10), 5462);
    assert_eq!(manager.get_node_slot_count(20), 5461);
    assert_eq!(manager.get_node_slot_count(30), 5461);
    assert_eq!(manager.get_node_for_slot(Slot(0)), Some(10));
    assert_eq!(manager.get_node_for_slot(Slot(5461)), Some(10));
    assert_eq!(manager.get_node_for_slot(Slot(5462)), Some(20));
    assert_eq!(manager.get_node_for_slot(Slot(10922)), Some(20));
    assert_eq!(manager.get_node_for_slot(Slot(10923)), Some(30));
    assert_eq!(manager.get_node_for_slot(Slot(16383)), Some(30));
    let slots = manager.get_node_slots(20);
    assert_eq!(slots.first(), Some(&5462));
    assert_eq!(slots.last(), Some(&10922));
    assert_eq!(manager.get_node_for_key(b"123456789"), manager.get_node_for_slot(Slot(0x31C3)));
}

#[test]
fn migrations_can_be_cancelled() {
    let mut manager = ShardManager::new();
    manager.assign_slots(1, SlotRange::new(5, 5));
    manager.start_migration(5, 2);
    manager.start_migration(5, 3);
    assert_eq!(manager.is_migrating(5), Some(3));
    manager.cancel_migration(5);
    assert_eq!(manager.is_migrating(5), None);
    manager.complete_migration(5);
    assert_eq!(manager.get_node_for_slot(Slot(5)), Some(1));
    assert_eq!(manager.epoch(), 1);
    assert_eq!(manager.get_node_for_slot(Slot(6)), None);
}

#[test]
fn a_node_is_changed_in_place_through_the_topology() {
    let mut topology = ClusterTopology::new();
    topology.add_node(Node::leader(1, "a:1", "a:2"));
    topology.add_node(Node::new(2, "b:1", "b:2"));
    topology.add_node(Node::new(3, "c:1", "c:2"));
    let epoch = topology.epoch;

    assert!(topology.get_node_mut(9).is_none());
    match topology.get_node_mut(2) {
        Some(node) => {
            assert_eq!(node.id, 2);
            node.mark_down();
        }
        None => panic!("node 2 was added"),
    }
    assert_eq!(topology.nodes.len(), 3);
    assert_eq!(topology.nodes[1].state, NodeState::Down);
    assert_eq!(topology.nodes[0].state, NodeState::Healthy);
    assert_eq!(topology.nodes[2].state, NodeState::Healthy);
    assert_eq!(topology.epoch, epoch);
    assert_eq!(topology.leader_id, Some(1));
}

#[test]
fn healthy_followers_come_in_the_order_of_the_topology() {
    let mut topology = ClusterTopology::new();
    assert!(topology.healthy_followers().is_empty());
    topology.add_node(Node::leader(1, "a:1", "a:2"));
    topology.add_node(Node::new(2, "b:1", "b:2"));
    topology.add_node(Node::new(3, "c:1", "c:2"));
    topology.add_node(Node::new(4, "d:1", "d:2"));
    topology.nodes[2].mark_down();

    let ids: Vec<u64> = topology.healthy_followers().iter().map(|n| n.id).collect();
    assert_eq!(ids, vec![2, 4]);
    assert_eq!(topology.leader().map(|n| n.id), Some(1));
    topology.remove_node(1);
    assert!(topology.leader().is_none());
}

#[test]
fn the_ranges_given_to_a_node_are_noted_in_their_order() {
    let mut manager = ShardManager::new();
    assert!(manager.node_ranges(1).is_empty());

    manager.assign_slots(1, SlotRange::new(0, 99));
    manager.assign_slots(2, SlotRange::new(100, 199));
    manager.assign_slots(1, SlotRange::new(200, 299));
    assert_eq!(manager.node_ranges(1), vec![SlotRange::new(0, 99), SlotRange::new(200, 299)]);
    assert_eq!(manager.node_ranges(2), vec![SlotRange::new(100, 199)]);
    assert!(manager.node_ranges(3).is_empty());

    // a range that is given again is noted again; the owners are those of the last
    manager.assign_slots(2, SlotRange::new(0, 99));
    assert_eq!(manager.node_ranges(2), vec![SlotRange::new(100, 199), SlotRange::new(0, 99)]);
    assert_eq!(manager.node_ranges(1), vec![SlotRange::new(0, 99), SlotRange::new(200, 299)]);
    assert_eq!(manager.get_node_for_slot(Slot(50)), Some(2));

    // migrations leave the ranges as they are
    manager.start_migration(250, 2);
    manager.complete_migration(250);
    manager.start_migration(10, 1);
    manager.cancel_migration(10);
    assert_eq!(manager.node_ranges(1), vec![SlotRange::new(0, 99), SlotRange::new(200, 299)]);

    let mut dealt = ShardManager::new();
    dealt.distribute_slots(&[7, 8, 9]);
    assert_eq!(dealt.node_ranges(7), vec![SlotRange::new(0, 5461)]);
    assert_eq!(dealt.node_ranges(8), vec![SlotRange::new(5462, 10922)]);
    assert_eq!(dealt.node_ranges(9), vec![SlotRange::new(10923, 16383)]);
}

#[test]
fn a_node_is_never_suspect_under_a_timeout_that_time_cannot_reach() {
    let mut node = Node::new(1, "a", "b");
    node.heartbeat_at(0);
    assert!(!node.is_suspect(u64::MAX));
    assert!(!node.is_suspect(u64::MAX / 1_000_000));
    assert!(!node.is_suspect_at(u64::MAX, u64::MAX / 1_000_000));
    assert!(node.is_suspect_at(u64::MAX, u64::MAX / 1_000_000 - 1));
}

#[test]
fn adding_a_replica_leaves_the_others_as_they_are() {
    let mut m = ReplicationManager::new(ReplicationConfig::default().with_mode(ReplicationMode::SemiSync));
    m.add_replica(1);
    m.add_replica(2);
    let off = m.record(ReplicationOp::SetKey, b"data".to_vec());
    assert_eq!(off, 1);
    assert!(!m.is_durable(off));
    m.ack(1, off);
    assert!(m.is_durable(off));
    // a third replica, and the second once more: the first keeps what it confirmed
    m.add_replica(3);
    m.add_replica(2);
    assert!(m.is_durable(off));
    assert_eq!(m.replica_count(), 3);
}

#[test]
fn dealing_the_slots_out_counts_one_change_for_each_node() {
    let mut m = ShardManager::new();
    assert_eq!(m.epoch(), 0);
    m.distribute_slots(&[]);
    assert_eq!(m.epoch(), 0);
    m.distribute_slots(&[1, 2, 3]);
    assert_eq!(m.epoch(), 3);
    assert_eq!(m.assigned_slot_count(), 16384);
    assert_eq!(m.get_node_slots(1).len(), 5462);
    assert_eq!(m.get_node_slots(2).len(), 5461);
    assert_eq!(m.get_node_slots(3).len(), 5461);
    m.distribute_slots(&[9]);
    assert_eq!(m.epoch(), 4);
    assert_eq!(m.node_ranges(9), vec![SlotRange::new(0, 16383)]);
    assert_eq!(m.node_ranges(1), vec![SlotRange::new(0, 5461)]);
}
