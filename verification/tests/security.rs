use celrix::security::acl::{glob_match, AclManager, AclRule, Permission, Role};
use celrix::security::audit::{AuditEvent, AuditEventType, AuditLogger};
use celrix::security::auth::{AuthConfig, AuthManager, AuthResult, Credentials};
use celrix::security::tls::{TlsAcceptor, TlsConfig, TlsVersion};

const SECOND: u64 = 1_000_000_000;

#[test]
fn test_acl_rule() {
    let rule = AclRule::new("user:*").with_read().with_write();
    assert!(rule.matches_key("user:123"));
    assert!(!rule.matches_key("admin:456"));
    assert!(rule.allows(Permission::Read));
    assert!(!rule.allows(Permission::Admin));
}

#[test]
fn test_role() {
    let role = Role::admin();
    assert!(role.can_execute("GET"));
    assert!(role.can_execute("CONFIG"));
    assert!(role.can_access("any:key", Permission::Admin));
}

#[test]
fn test_acl_manager() {
    let mut acl = AclManager::new();
    acl.assign_role("user1", "readonly");

    assert!(acl.can_execute("user1", "GET"));
    assert!(!acl.can_execute("user1", "SET"));
    assert!(acl.can_access("user1", "foo", Permission::Read));
    assert!(!acl.can_access("user1", "foo", Permission::Write));
}

#[test]
fn glob_patterns() {
    assert!(glob_match("*", ""));
    assert!(glob_match("*", "anything"));
    assert!(glob_match("user:*", "user:"));
    assert!(glob_match("user:*", "user:42"));
    assert!(!glob_match("user:*", "use"));
    assert!(glob_match("*:admin", "root:admin"));
    assert!(!glob_match("*:admin", "admin"));
    assert!(glob_match("exact", "exact"));
    assert!(!glob_match("exact", "exact1"));
    assert!(!glob_match("", "x"));
    assert!(glob_match("", ""));
    // a star at both ends: only the last one is wild
    assert!(glob_match("*a*", "*abc"));
    assert!(!glob_match("*a*", "xabc"));
    assert!(glob_match("caf\u{e9}*", "caf\u{e9} au lait"));
}

#[test]
fn roles_and_commands() {
    let role = Role::new("ops").allow_command("get").deny_command("flush").allow_command("flush");
    assert!(role.can_execute("GET"));
    assert!(role.can_execute("Get"));
    assert!(!role.can_execute("FLUSH"));
    assert!(!role.can_execute("SET"));
    assert_eq!(role.commands, vec!["GET".to_string(), "FLUSH".to_string()]);
    let open = Role::new("open").deny_command("shutdown");
    assert!(open.can_execute("anything"));
    assert!(!open.can_execute("ShutDown"));
    assert!(!open.can_access("k", Permission::Read));
    let writer = Role::write_only();
    assert!(writer.can_execute("set"));
    assert!(!writer.can_execute("GET"));
    assert!(writer.can_access("k", Permission::Write));
    assert!(!writer.can_access("k", Permission::Read));
    let twice = AclRule::new("a").with_read().with_read().with_all();
    assert_eq!(twice.permissions, vec![Permission::Read, Permission::All]);
    assert!(twice.allows(Permission::Cluster));
}

#[test]
fn manager_roles_by_name() {
    let mut acl = AclManager::default();
    assert!(!acl.can_execute("nobody", "GET"));
    acl.assign_role("u", "missing");
    assert!(!acl.can_execute("u", "GET"));
    acl.add_role(Role::new("missing").allow_command("GET").with_rule(AclRule::new("cache:*").with_read()));
    assert!(acl.can_execute("u", "GET"));
    assert!(acl.can_access("u", "cache:1", Permission::Read));
    assert!(!acl.can_access("u", "other", Permission::Read));
    acl.assign_role("u", "admin");
    assert!(acl.can_execute("u", "SHUTDOWN"));
    assert!(acl.can_access("u", "other", Permission::Admin));
    // a role of the same name replaces
    acl.add_role(Role::new("admin").deny_command("shutdown"));
    assert!(!acl.can_access("u", "other", Permission::Admin));
}

#[test]
fn test_audit_event() {
    let event = AuditEvent::new(AuditEventType::Login).with_user("admin").with_client("192.168.1.1");

    assert_eq!(event.event_type, AuditEventType::Login);
    assert!(event.success);
}

#[test]
fn test_audit_logger() {
    let mut logger = AuditLogger::new(100);
    logger.log_login("user1", "127.0.0.1", true);
    logger.log_command("user1", "GET", Some("foo"));

    let recent = logger.recent(10);
    assert_eq!(recent.len(), 2);
}

#[test]
fn test_json_export() {
    let mut logger = AuditLogger::new(100);
    logger.log_login("admin", "10.0.0.1", true);

    let json = logger.export_json();
    assert!(json.contains("Login"));
    assert!(json.contains("admin"));
}

#[test]
fn audit_json_is_exact() {
    let event = AuditEvent::new_at(AuditEventType::PermissionDenied, 1700000000123)
        .with_user("eve")
        .with_client("10.1.1.1")
        .with_command("DEL")
        .with_key("secret")
        .failed()
        .with_message("nope");
    assert_eq!(
        event.to_json(),
        "{\"type\":\"PermissionDenied\",\"timestamp\":1700000000123,\"success\":false,\"username\":\"eve\",\"client_ip\":\"10.1.1.1\",\"command\":\"DEL\",\"key\":\"secret\",\"message\":\"nope\"}"
    );
    assert_eq!(
        AuditEvent::new_at(AuditEventType::Connect, 0).to_json(),
        "{\"type\":\"Connect\",\"timestamp\":0,\"success\":true}"
    );
    let mut logger = AuditLogger::new(10);
    assert_eq!(logger.export_json(), "[]");
    logger.log(AuditEvent::new_at(AuditEventType::Logout, 1));
    logger.log(AuditEvent::new_at(AuditEventType::Connect, 2));
    assert_eq!(
        logger.export_json(),
        "[{\"type\":\"Logout\",\"timestamp\":1,\"success\":true},{\"type\":\"Connect\",\"timestamp\":2,\"success\":true}]"
    );
}

#[test]
fn audit_buffer_is_bounded() {
    let mut logger = AuditLogger::new(2);
    logger.log(AuditEvent::new_at(AuditEventType::Connect, 1));
    logger.log(AuditEvent::new_at(AuditEventType::Login, 2));
    logger.log(AuditEvent::new_at(AuditEventType::Command, 3));
    let recent = logger.recent(5);
    assert_eq!(recent.len(), 2);
    assert_eq!(recent[0].timestamp, 3);
    assert_eq!(recent[1].timestamp, 2);
    assert_eq!(logger.recent(1)[0].event_type, AuditEventType::Command);
    logger.log_denied("u", "SET", None);
    let denied = &logger.recent(1)[0];
    assert_eq!(denied.event_type, AuditEventType::PermissionDenied);
    assert!(!denied.success);
    assert_eq!(denied.key, None);
    logger.log_login("u", "ip", false);
    let attempt = &logger.recent(1)[0];
    assert_eq!(attempt.event_type, AuditEventType::AuthAttempt);
    assert!(!attempt.success);
    logger.clear();
    assert!(logger.recent(5).is_empty());
    let mut none = AuditLogger::new(0);
    none.log(AuditEvent::new_at(AuditEventType::Connect, 1));
    none.log(AuditEvent::new_at(AuditEventType::Connect, 2));
    assert_eq!(none.recent(9).len(), 1);
    assert_eq!(AuditLogger::default().recent(1).len(), 0);
}

#[test]
fn test_auth_manager() {
    let mut auth = AuthManager::default();
    auth.add_user("admin", "hashed_password");

    assert_eq!(auth.authenticate("admin", "hashed_password"), AuthResult::Success);
    assert_eq!(auth.authenticate("admin", "wrong"), AuthResult::Failed);
}

#[test]
fn test_session() {
    let mut auth = AuthManager::default();
    auth.add_user("user1", "pass");

    let token = auth.create_session("user1");
    assert_eq!(auth.validate_session(&token), Some("user1".to_string()));

    auth.end_session(&token);
    assert_eq!(auth.validate_session(&token), None);
}

#[test]
fn lockout_after_repeated_failures() {
    let config = AuthConfig { max_attempts: 2, lockout_duration: 60, ..AuthConfig::default() };
    let mut auth = AuthManager::new(config);
    auth.add_user("u", "right");
    assert_eq!(auth.authenticate_at("u", "wrong", 0), AuthResult::Failed);
    assert_eq!(auth.authenticate_at("u", "right", 1), AuthResult::Success);
    // the success has cleared the count
    assert_eq!(auth.authenticate_at("u", "wrong", 2), AuthResult::Failed);
    assert_eq!(auth.authenticate_at("u", "wrong", 3), AuthResult::Failed);
    // locked out: even the right password fails
    assert_eq!(auth.authenticate_at("u", "right", 4), AuthResult::Failed);
    assert_eq!(auth.authenticate_at("u", "right", 3 + 59 * SECOND), AuthResult::Failed);
    assert_eq!(auth.authenticate_at("u", "right", 3 + 60 * SECOND), AuthResult::Success);
    assert_eq!(auth.authenticate_at("ghost", "x", 0), AuthResult::Failed);
    assert!(auth.remove_user("u"));
    assert!(!auth.remove_user("u"));
    assert_eq!(auth.authenticate_at("u", "right", 0), AuthResult::Failed);
}

#[test]
fn sessions_time_out() {
    let mut auth = AuthManager::new(AuthConfig { session_timeout: 10, ..AuthConfig::default() });
    let token = auth.create_session_at("ann", 5 * SECOND);
    assert_eq!(token, "ann_5000000000");
    assert_eq!(auth.validate_session_at(&token, 14 * SECOND + 999_999_999), Some("ann".to_string()));
    assert_eq!(auth.validate_session_at(&token, 15 * SECOND), None);
    assert_eq!(auth.validate_session_at("other", 0), None);
    let c = Credentials::new("n", "h", 3);
    assert!(c.enabled);
    assert_eq!(c.created_at, 3);
    assert_eq!(c.last_login, None);
}

#[test]
fn test_tls_config() {
    let config = TlsConfig::default().enabled().with_cert("cert.pem".to_string(), "key.pem".to_string());

    assert!(config.enabled);
    assert_eq!(config.min_version, TlsVersion::Tls13);
}

#[test]
fn test_mtls_config() {
    let config = TlsConfig::default().enabled().with_mtls("ca.pem".to_string());

    assert!(config.require_client_cert);
    assert!(config.ca_file.is_some());
}

#[test]
fn tls_acceptor_reads_its_config() {
    let off = TlsAcceptor::new(TlsConfig::default());
    assert!(!off.is_enabled());
    assert!(!off.requires_client_cert());
    assert_eq!(off.config().cert_file, "certs/server.crt");
    assert_eq!(off.config().key_file, "certs/server.key");
    let on = TlsAcceptor::new(TlsConfig::default().enabled().with_mtls("ca".to_string()));
    assert!(on.is_enabled());
    assert!(on.requires_client_cert());
    assert_eq!(TlsVersion::default(), TlsVersion::Tls13);
}

#[test]
fn a_session_that_cannot_time_out_is_valid_whatever_the_clock_shows() {
    let mut auth = AuthManager::new(AuthConfig { session_timeout: u64::MAX, ..AuthConfig::default() });
    let token = auth.create_session_at("ann", 0);
    assert_eq!(auth.validate_session(&token), Some("ann".to_string()));
    assert_eq!(auth.validate_session_at(&token, u64::MAX), Some("ann".to_string()));
    assert_eq!(auth.validate_session("no such token"), None);
    // a session without time to live is never valid
    let mut none = AuthManager::new(AuthConfig { session_timeout: 0, ..AuthConfig::default() });
    let token = none.create_session_at("bob", 0);
    assert_eq!(none.validate_session(&token), None);
}

#[test]
fn the_default_roles_allow_what_their_names_say() {
    let mut acl = AclManager::new();
    acl.assign_role("reader", "readonly");
    acl.assign_role("writer", "writeonly");
    acl.assign_role("root", "admin");
    for cmd in ["GET", "EXISTS", "SCAN", "KEYS", "MGET", "get", "mGet"] {
        assert!(acl.can_execute("reader", cmd), "{}", cmd);
        assert!(!acl.can_execute("writer", cmd), "{}", cmd);
        assert!(acl.can_execute("root", cmd), "{}", cmd);
        assert!(!acl.can_execute("nobody", cmd), "{}", cmd);
    }
    for cmd in ["SET", "DEL", "MSET", "set"] {
        assert!(!acl.can_execute("reader", cmd), "{}", cmd);
        assert!(acl.can_execute("writer", cmd), "{}", cmd);
        assert!(acl.can_execute("root", cmd), "{}", cmd);
    }
    assert!(!acl.can_execute("reader", "FLUSHALL"));
    assert!(!acl.can_execute("writer", "FLUSHALL"));
    assert!(acl.can_execute("root", "FLUSHALL"));
    assert!(acl.can_access("reader", "any:key", Permission::Read));
    assert!(!acl.can_access("reader", "any:key", Permission::Write));
    assert!(acl.can_access("writer", "any:key", Permission::Write));
    assert!(!acl.can_access("writer", "any:key", Permission::Read));
    assert!(acl.can_access("root", "any:key", Permission::Admin));
    assert_eq!(Role::read_only().commands, vec!["GET", "EXISTS", "SCAN", "KEYS", "MGET"]);
    assert_eq!(Role::write_only().commands, vec!["SET", "DEL", "MSET"]);
    assert_eq!(Role::admin().commands, vec!["*"]);
    assert!(Role::admin().denied_commands.is_empty());
}
