use celrix::disaster_recovery::failover::{
    FailoverConfig, FailoverManager, FailoverState, FailoverVote,
};
use celrix::disaster_recovery::geo::{GeoConfig, GeoRegion, GeoReplication, RegionStatus};
use celrix::disaster_recovery::recovery::{PitrConfig, PointInTimeRecovery, RecoveryPoint};

fn now_ms() -> u64 {
    std::time::SystemTime::now().duration_since(std::time::UNIX_EPOCH).unwrap().as_millis() as u64
}

const SECOND: u64 = 1_000_000_000;

#[test]
fn test_failover_manager() {
    let mut fm = FailoverManager::new(FailoverConfig::default().with_quorum(2));
    fm.set_primary(1);

    assert_eq!(fm.state(), FailoverState::Normal);
    assert!(fm.can_failover());
}

#[test]
fn test_quorum_voting() {
    let mut fm = FailoverManager::new(FailoverConfig::default().with_quorum(2));
    fm.start_failover(2);

    fm.vote(FailoverVote { node_id: 1, candidate_id: 2, timestamp: 0, approved: true });

    assert!(!fm.has_quorum(2));

    fm.vote(FailoverVote { node_id: 3, candidate_id: 2, timestamp: 0, approved: true });

    assert!(fm.has_quorum(2));
}

#[test]
fn test_split_brain_detection() {
    let mut fm = FailoverManager::default();

    assert!(!fm.detect_split_brain(&[1]));
    assert!(fm.detect_split_brain(&[1, 2]));
    assert_eq!(fm.state(), FailoverState::SplitBrain);
}

#[test]
fn failover_cooldown_and_rate_limit() {
    let config = FailoverConfig::default();
    assert_eq!(config.cooldown_secs, 300);
    assert_eq!(config.max_failovers_per_hour, 3);
    let mut fm = FailoverManager::new(config);
    assert!(fm.start_failover_at(2, 0));
    assert_eq!(fm.state(), FailoverState::InProgress);
    assert!(!fm.can_failover_at(0));
    fm.complete_failover_at(2, 10 * SECOND);
    assert_eq!(fm.primary(), Some(2));
    assert_eq!(fm.state(), FailoverState::Normal);
    assert_eq!(fm.vote_count(), 0);
    // within the cooldown
    assert!(!fm.can_failover_at(10 * SECOND + 299 * SECOND));
    assert!(fm.can_failover_at(10 * SECOND + 300 * SECOND));
    fm.complete_failover_at(3, 1000 * SECOND);
    fm.complete_failover_at(4, 2000 * SECOND);
    // three failovers: the hour's limit is reached
    assert!(!fm.can_failover_at(3000 * SECOND));
    fm.reset_rate_limit_at(3599 * SECOND);
    assert!(!fm.can_failover_at(3000 * SECOND));
    fm.reset_rate_limit_at(3700 * SECOND);
    assert!(fm.can_failover_at(3000 * SECOND));
    assert!(!FailoverManager::new(FailoverConfig::default().manual_only()).can_failover());
}

#[test]
fn a_node_votes_once() {
    let mut fm = FailoverManager::new(FailoverConfig::default().with_quorum(1));
    fm.vote(FailoverVote { node_id: 1, candidate_id: 2, timestamp: 0, approved: true });
    fm.vote(FailoverVote { node_id: 1, candidate_id: 2, timestamp: 1, approved: false });
    assert_eq!(fm.vote_count(), 1);
    assert!(!fm.has_quorum(2));
    fm.vote(FailoverVote { node_id: 2, candidate_id: 5, timestamp: 1, approved: true });
    assert!(!fm.has_quorum(2));
    assert!(fm.has_quorum(5));
}

#[test]
fn test_geo_region() {
    let region = GeoRegion::new("us-1", "us-east-1", "dc-virginia").primary();

    assert!(region.is_primary);
    assert_eq!(region.priority, 0);
}

#[test]
fn test_geo_replication() {
    let mut geo = GeoReplication::new(GeoConfig::default());

    geo.add_region(GeoRegion::new("us-1", "us-east", "dc1").primary());
    geo.add_region(GeoRegion::new("eu-1", "eu-west", "dc2").with_priority(10));

    assert_eq!(geo.region_count(), 2);
    assert!(geo.primary().is_some());
}

#[test]
fn geo_test_health_check() {
    let mut geo = GeoReplication::new(GeoConfig::default());
    geo.add_region(GeoRegion::new("r1", "region1", "dc1").primary());

    geo.heartbeat("r1", 100);
    assert_eq!(geo.healthy_regions().len(), 1);

    geo.heartbeat("r1", 10000);
    assert_eq!(geo.healthy_regions().len(), 0);
}

#[test]
fn a_new_primary_is_the_healthy_region_of_best_priority() {
    let mut geo = GeoReplication::new(GeoConfig::default());
    geo.add_region_at(GeoRegion::new("us", "us-east", "dc1").primary(), 0);
    geo.add_region_at(GeoRegion::new("eu", "eu-west", "dc2").with_priority(10), 0);
    geo.add_region_at(GeoRegion::new("ap", "ap-south", "dc3").with_priority(5), 0);
    geo.add_region_at(GeoRegion::new("sa", "sa-east", "dc4").with_priority(5), 0);
    // the primary is healthy: it stays
    assert_eq!(geo.elect_primary(), None);
    geo.heartbeat_at("us", 6000, 1);
    assert_eq!(geo.elect_primary(), Some("ap".to_string()));
    assert_eq!(geo.primary().unwrap().region.id, "ap");
    geo.heartbeat_at("ap", 5001, 2);
    assert_eq!(geo.elect_primary(), Some("sa".to_string()));
    geo.heartbeat_at("sa", 9999, 3);
    assert_eq!(geo.elect_primary(), Some("eu".to_string()));
    geo.heartbeat_at("eu", 9999, 3);
    assert_eq!(geo.elect_primary(), None);
    assert_eq!(geo.primary().unwrap().region.id, "eu");
    geo.heartbeat_at("unknown", 1, 4);
    assert_eq!(geo.region_count(), 4);
}

#[test]
fn regions_go_stale_after_three_intervals() {
    let mut geo = GeoReplication::new(GeoConfig::default());
    geo.add_region_at(GeoRegion::new("a", "a", "a"), 0);
    geo.add_region_at(GeoRegion::new("b", "b", "b"), 2 * SECOND);
    geo.check_health_at(3 * SECOND);
    assert_eq!(geo.healthy_regions().len(), 2);
    geo.check_health_at(3 * SECOND + 1);
    let healthy = geo.healthy_regions();
    assert_eq!(healthy.len(), 1);
    assert_eq!(healthy[0].region.id, "b");
    let status = RegionStatus::new(GeoRegion::new("c", "c", "c"), 10);
    assert!(!status.is_stale(10 + SECOND, 1));
    assert!(status.is_stale(11 + SECOND, 1));
    assert!(!status.is_stale(5, 0));
}

#[test]
fn test_create_recovery_point() {
    let mut pitr = PointInTimeRecovery::default();
    let point = pitr.create_point("Test backup");

    assert!(!point.id.is_empty());
    assert!(point.timestamp_ms > 0);
    assert_eq!(pitr.count(), 1);
}

#[test]
fn test_get_point_at() {
    let mut pitr = PointInTimeRecovery::default();
    let base = now_ms();

    let first = RecoveryPoint::new("p1", base);
    let second = RecoveryPoint::new("p2", base + 1000);
    let third = RecoveryPoint::new("p3", base + 2000);

    pitr.add_point(first);
    pitr.add_point(second);
    pitr.add_point(third);

    let point = pitr.get_point_at(base + 1500).unwrap();
    assert_eq!(point.id, "p2");
}

#[test]
fn test_list_and_range() {
    let mut pitr = PointInTimeRecovery::default();
    let base = now_ms();

    pitr.add_point(RecoveryPoint::new("p1", base));
    pitr.add_point(RecoveryPoint::new("p2", base + 1000));
    pitr.add_point(RecoveryPoint::new("p3", base + 2000));

    assert_eq!(pitr.list().len(), 3);
    assert_eq!(pitr.range(base + 500, base + 1500).len(), 1);
}

#[test]
fn recovery_points_are_kept_in_order_and_cleaned_up() {
    let config = PitrConfig { retention_secs: 10, max_points: 3, ..PitrConfig::default() };
    let mut pitr = PointInTimeRecovery::new(config);
    let now = 100_000;
    pitr.add_point_at(RecoveryPoint::new("c", 95_000), now);
    pitr.add_point_at(RecoveryPoint::new("a", 91_000), now);
    pitr.add_point_at(RecoveryPoint::new("b", 93_000), now);
    let ids: Vec<String> = pitr.list().iter().map(|p| p.id.clone()).collect();
    assert_eq!(ids, vec!["a", "b", "c"]);
    // a point with the same timestamp replaces
    pitr.add_point_at(RecoveryPoint::new("b2", 93_000).with_aof_offset(7), now);
    assert_eq!(pitr.count(), 3);
    assert_eq!(pitr.get_point_at(93_500).unwrap().id, "b2");
    assert_eq!(pitr.get_point_at(93_000).unwrap().aof_offset, 7);
    assert!(pitr.get_point_at(90_999).is_none());
    // older than the retention: dropped at once
    pitr.add_point_at(RecoveryPoint::new("old", 89_999), now);
    assert_eq!(pitr.count(), 3);
    assert_eq!(pitr.list()[0].id, "a");
    // over the limit: the oldest leaves
    pitr.add_point_at(RecoveryPoint::new("d", 99_000), now);
    let ids: Vec<String> = pitr.list().iter().map(|p| p.id.clone()).collect();
    assert_eq!(ids, vec!["b2", "c", "d"]);
    assert_eq!(pitr.latest().unwrap().id, "d");
    // time passes
    pitr.cleanup_old_points(105_001);
    let ids: Vec<String> = pitr.list().iter().map(|p| p.id.clone()).collect();
    assert_eq!(ids, vec!["d"]);
    assert_eq!(pitr.delete(1).map(|p| p.id), None);
    assert_eq!(pitr.delete(99_000).map(|p| p.id), Some("d".to_string()));
    assert!(pitr.latest().is_none());
    assert_eq!(pitr.total_size(), 0);
}

#[test]
fn recovery_point_fields() {
    let p = RecoveryPoint::new("p", 1_234_567)
        .with_snapshot("snap.cel".to_string())
        .with_aof_offset(9)
        .with_description("nightly");
    assert_eq!(p.formatted_time(), "1234");
    assert_eq!(p.snapshot_path, Some("snap.cel".to_string()));
    assert_eq!(p.description, "nightly");
    let mut pitr = PointInTimeRecovery::default();
    let made = pitr.create_point_at("manual", 1_700_000_000_000);
    assert_eq!(made.id, "rp_1700000000000");
    assert_eq!(made.description, "manual");
    let mut sized = RecoveryPoint::new("s", 1);
    sized.size_bytes = 40;
    let mut other = RecoveryPoint::new("t", 2);
    other.size_bytes = 2;
    let mut keep = PointInTimeRecovery::new(PitrConfig { retention_secs: u64::MAX, ..PitrConfig::default() });
    keep.add_point(sized);
    keep.add_point(other);
    assert_eq!(keep.total_size(), 42);
    assert_eq!(keep.range(0, 1).len(), 1);
    assert_eq!(keep.range(3, 9).len(), 0);
    assert_eq!(keep.range(2, 1).len(), 0);
}

#[test]
fn the_clock_reading_checks_do_what_those_at_an_instant_do() {
    // a manager that was made just now: no hour has passed
    let mut fm = FailoverManager::new(FailoverConfig::default());
    fm.complete_failover_at(1, 0);
    fm.reset_rate_limit();
    assert_eq!(fm.primary(), Some(1));
    assert_eq!(fm.state(), FailoverState::Normal);
    fm.complete_failover_at(2, 0);
    fm.complete_failover_at(3, 0);
    assert!(!fm.can_failover_at(400 * SECOND));
    fm.reset_rate_limit();
    assert!(!fm.can_failover_at(400 * SECOND));
    fm.reset_rate_limit_at(u64::MAX);
    assert!(fm.can_failover_at(u64::MAX));

    // regions that were heard from just now stay healthy
    let mut geo = GeoReplication::new(GeoConfig::default());
    geo.add_region(GeoRegion::new("a", "a", "a"));
    geo.add_region(GeoRegion::new("b", "b", "b"));
    geo.check_health();
    assert_eq!(geo.healthy_regions().len(), 2);
    assert_eq!(geo.region_count(), 2);
    geo.check_health_at(u64::MAX);
    assert_eq!(geo.healthy_regions().len(), 0);
    assert_eq!(geo.region_count(), 2);
}
