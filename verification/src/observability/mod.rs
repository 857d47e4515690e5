//! Observability: the admin API, health checks, the export of metrics,
//! and the configuration of load tests.

pub mod admin;
pub mod health;
pub mod loadtest;
pub mod prometheus_metrics;

pub use admin::{AdminApi, AdminConfig, AdminRequest, AdminResponse};
pub use health::{CheckResult, HealthCheck, HealthStatus, SystemHealth};
pub use loadtest::{Benchmark, LoadTestConfig};
pub use prometheus_metrics::{Metric, MetricType, MetricsRegistry, PrometheusExporter};
