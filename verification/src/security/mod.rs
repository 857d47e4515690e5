//! Security: authentication, access control, TLS configuration and the
//! audit trail.

pub mod acl;
pub mod audit;
pub mod auth;
pub mod tls;

pub use tls::{TlsAcceptor, TlsConfig};
pub use acl::{AclManager, AclRule, Permission, Role};
pub use auth::{AuthConfig, AuthManager, AuthResult, Credentials};
pub use audit::{AuditEvent, AuditEventType, AuditLogger};
