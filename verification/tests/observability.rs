use celrix::metrics::Metrics;
use celrix::observability::admin::{AdminApi, AdminConfig, AdminRequest, AdminResponse};
use celrix::observability::health::{HealthCheck, HealthStatus};
use celrix::observability::loadtest::{Benchmark, LoadTestConfig};
use celrix::observability::prometheus_metrics::{Metric, MetricsRegistry, PrometheusExporter};

#[test]
fn test_admin_api() {
    let api = AdminApi::default();

    let req = AdminRequest::new("GET", "/health");
    let resp = api.handle(&req);

    assert_eq!(resp.status, 200);
    assert!(resp.body.contains("ok"));
}

#[test]
fn test_admin_auth() {
    let config = AdminConfig::default().with_auth("secret123");
    let api = AdminApi::new(config);

    let req = AdminRequest::new("GET", "/health");
    let resp = api.handle(&req);
    assert_eq!(resp.status, 401);

    let req = AdminRequest::new("GET", "/health").with_header("Authorization", "Bearer secret123");
    let resp = api.handle(&req);
    assert_eq!(resp.status, 200);
}

#[test]
fn test_not_found() {
    let api = AdminApi::default();
    let req = AdminRequest::new("GET", "/nonexistent");
    let resp = api.handle(&req);
    assert_eq!(resp.status, 404);
}

#[test]
fn admin_routes_and_responses() {
    let mut api = AdminApi::default();
    assert_eq!(
        api.routes(),
        vec![
            "GET /health",
            "GET /info",
            "GET /stats",
            "POST /config/reload",
            "POST /cache/flush",
            "GET /debug/pprof"
        ]
    );
    let info = api.handle(&AdminRequest::new("get", "/info"));
    assert_eq!(info.body, "{\"version\":\"0.1.0\",\"name\":\"celrix\"}");
    assert_eq!(info.content_type, "application/json");
    let missing = api.handle(&AdminRequest::new("POST", "/health"));
    assert_eq!(missing.body, "{\"error\":\"Not found\"}");
    api.register("POST /health", AdminResponse::error(503, "down"));
    let down = api.handle(&AdminRequest::new("post", "/health"));
    assert_eq!(down.status, 503);
    assert_eq!(down.body, "{\"error\":\"down\"}");
    api.register("GET /health", AdminResponse::ok("{}"));
    assert_eq!(api.handle(&AdminRequest::new("GET", "/health")).body, "{}");
    assert_eq!(api.routes().len(), 7);
    let wrong_key = AdminApi::new(AdminConfig::default().with_auth("k").with_port(1));
    let req = AdminRequest::new("GET", "/health").with_header("AUTHORIZATION", "Bearer x");
    assert_eq!(wrong_key.handle(&req).body, "{\"error\":\"Unauthorized\"}");
    let req = AdminRequest::new("GET", "/health").with_query("a", "b").with_header("X", "y");
    assert_eq!(req.get_header("x"), Some(&"y".to_string()));
    assert_eq!(req.get_header("a"), None);
    assert_eq!(req.method, "GET");
}

#[test]
fn health_test_health_check() {
    let mut health = HealthCheck::new();

    health.register("test_ok", HealthStatus::Healthy, None, 0);
    health.register("test_degraded", HealthStatus::Degraded, Some("High latency".to_string()), 0);

    let result = health.check();
    assert_eq!(result.overall, HealthStatus::Degraded);
    assert_eq!(result.checks.len(), 2);
}

#[test]
fn test_health_json() {
    let mut health = HealthCheck::new();
    health.register("store", HealthStatus::Healthy, None, 0);

    let result = health.check();
    let json = result.to_json();

    assert!(json.contains("\"status\":\"healthy\""));
    assert!(json.contains("\"version\":"));
}

#[test]
fn test_liveness_readiness() {
    let health = HealthCheck::new();
    assert!(health.liveness());
    assert!(health.readiness());
}

#[test]
fn health_is_the_worst_outcome() {
    let mut health = HealthCheck::default();
    health.register("a", HealthStatus::Degraded, None, 3);
    health.register("b", HealthStatus::Unhealthy, Some("disk".to_string()), 40);
    health.register("c", HealthStatus::Healthy, None, 0);
    assert!(!health.readiness());
    let result = health.check_at(12_000_000_000, 2_000_000_000);
    assert_eq!(result.overall, HealthStatus::Unhealthy);
    assert_eq!(result.uptime_secs, 10);
    assert_eq!(
        result.to_json(),
        "{\"status\":\"unhealthy\",\"uptime_secs\":10,\"version\":\"0.1.0\",\"checks\":[{\"name\":\"a\",\"status\":\"degraded\",\"duration_ms\":3},{\"name\":\"b\",\"status\":\"unhealthy\",\"duration_ms\":40,\"message\":\"disk\"},{\"name\":\"c\",\"status\":\"healthy\",\"duration_ms\":0}]}"
    );
    // a later outcome of the same check takes the place of the earlier one
    health.register("b", HealthStatus::Healthy, None, 1);
    assert_eq!(health.check().overall, HealthStatus::Degraded);
    health.register("a", HealthStatus::Healthy, None, 1);
    assert!(health.readiness());
    assert_eq!(health.check().checks.len(), 3);
}

#[test]
fn test_metrics_registry() {
    let mut registry = MetricsRegistry::new();

    registry.inc("celrix_commands_total");
    registry.inc("celrix_commands_total");
    registry.set("celrix_keys_total", 42);

    assert_eq!(registry.get("celrix_commands_total"), Some(2));
    assert_eq!(registry.get("celrix_keys_total"), Some(42));
}

#[test]
fn test_prometheus_export() {
    let mut exporter = PrometheusExporter::new();
    exporter.registry_mut().inc("celrix_commands_total");

    let output = exporter.export();
    assert!(output.contains("celrix_commands_total"));
    assert!(output.contains("# TYPE"));
    assert!(output.contains("counter"));
}

#[test]
fn prometheus_text_is_exact() {
    let mut registry = MetricsRegistry::empty();
    registry.register(Metric::counter("hits", "Cache hits"));
    let mut labelled = Metric::gauge("temp", "Temperature");
    labelled.labels.push(("room".to_string(), "a".to_string()));
    labelled.labels.push(("floor".to_string(), "2".to_string()));
    labelled.set(21);
    registry.register(labelled);
    registry.inc("hits");
    registry.inc("unknown");
    registry.set("unknown", 3);
    assert_eq!(registry.get("unknown"), None);
    assert_eq!(
        registry.export(),
        "# HELP hits Cache hits\n# TYPE hits counter\nhits 1\n# HELP temp Temperature\n# TYPE temp gauge\ntemp{room=\"a\",floor=\"2\"} 21\n"
    );
    registry.inc("temp");
    assert_eq!(registry.get("temp"), Some(22));
    assert!(registry.export().ends_with("temp{room=\"a\",floor=\"2\"} 22\n"));
    let mut m = Metric::counter("c", "h");
    m.set(u64::MAX);
    m.inc();
    assert_eq!(m.get(), 0);
    m.add(5);
    assert_eq!(m.get(), 5);
    let defaults = PrometheusExporter::default();
    assert_eq!(defaults.registry().get("celrix_uptime_seconds"), Some(0));
    assert_eq!(defaults.export().matches("# HELP").count(), 9);
}

#[test]
fn test_metrics() {
    let mut metrics = Metrics::new();

    metrics.record_operation("GET", 100);
    metrics.record_operation("GET", 200);
    metrics.record_operation("SET", 150);

    assert_eq!(metrics.total_ops(), 3);
    assert_eq!(metrics.min_latency_us(), 100);
    assert_eq!(metrics.max_latency_us(), 200);
    assert_eq!(metrics.avg_latency_tenths(), 1500);

    assert_eq!(metrics.ops_of("GET"), 2);
    assert_eq!(metrics.ops_of("SET"), 1);
}

#[test]
fn metrics_summary_is_exact() {
    let mut metrics = Metrics::default();
    assert_eq!(metrics.min_latency_us(), 0);
    assert_eq!(metrics.avg_latency_tenths(), 0);
    assert_eq!(metrics.summary(), "Operations: 0 | Latency (\u{b5}s): avg=0.0, min=0, max=0");
    metrics.record_operation("PING", 10);
    metrics.record_operation("PING", 11);
    metrics.record_operation("GET", 12);
    assert_eq!(metrics.summary(), "Operations: 3 | Latency (\u{b5}s): avg=11.0, min=10, max=12");
    metrics.record_operation("GET", 20);
    assert_eq!(metrics.avg_latency_tenths(), 132);
    assert_eq!(metrics.summary(), "Operations: 4 | Latency (\u{b5}s): avg=13.2, min=10, max=20");
    assert_eq!(
        metrics.ops_by_command(),
        vec![("PING".to_string(), 2), ("GET".to_string(), 2)]
    );
    assert_eq!(metrics.ops_of("DEL"), 0);
}

#[test]
fn load_test_builders() {
    let config = LoadTestConfig::default().with_concurrency(4).with_requests(99).with_target("h", 7);
    assert_eq!(config.concurrency, 4);
    assert_eq!(config.total_requests, 99);
    assert_eq!(config.host, "h");
    assert_eq!(config.port, 7);
    assert_eq!(config.timeout_secs, 5);
    let b = Benchmark::new("test_op").iterations(100).warmup(10);
    assert_eq!(b.name, "test_op");
    assert_eq!(b.iterations, 100);
    assert_eq!(b.warmup, 10);
    assert_eq!(Benchmark::new("x").iterations, 1000);
    assert_eq!(Benchmark::new("x").warmup, 100);
}

#[test]
fn a_new_registry_holds_the_default_metrics_at_zero_and_no_other() {
    let r = MetricsRegistry::new();
    for name in [
        "celrix_commands_total",
        "celrix_commands_get_total",
        "celrix_commands_set_total",
        "celrix_commands_del_total",
        "celrix_keys_total",
        "celrix_memory_bytes",
        "celrix_connections_active",
        "celrix_connections_total",
        "celrix_uptime_seconds",
    ] {
        assert_eq!(r.get(name), Some(0), "{}", name);
    }
    for name in ["", "celrix", "celrix_commands", "celrix_commands_total ", "CELRIX_KEYS_TOTAL", "other"] {
        assert_eq!(r.get(name), None, "{:?}", name);
    }
    assert_eq!(MetricsRegistry::empty().get("celrix_keys_total"), None);
}
