//! TLS configuration for client and cluster connections.

use vstd::prelude::*;

verus! {

/// TLS version.
#[derive(Debug, Clone, Copy, PartialEq, Eq, Structural)]
pub enum TlsVersion {
    Tls12,
    Tls13,
}

impl Default for TlsVersion {
    fn default() -> (v: TlsVersion)
        ensures
            v == TlsVersion::Tls13,
    {
        TlsVersion::Tls13
    }
}

/// TLS configuration.
#[derive(Debug, Clone)]
pub struct TlsConfig {
    /// Whether TLS is on.
    pub enabled: bool,
    /// Path of the certificate file.
    pub cert_file: String,
    /// Path of the key file.
    pub key_file: String,
    /// Path of the CA file by which client certificates are verified.
    pub ca_file: Option<String>,
    /// Whether clients must present a certificate.
    pub require_client_cert: bool,
    /// Least TLS version.
    pub min_version: TlsVersion,
}

/// A TLS configuration as a value.
pub struct TlsModel {
    pub enabled: bool,
    pub cert_file: Seq<char>,
    pub key_file: Seq<char>,
    pub ca_file: Option<Seq<char>>,
    pub require_client_cert: bool,
    pub min_version: TlsVersion,
}

impl View for TlsConfig {
    type V = TlsModel;

    open spec fn view(&self) -> TlsModel {
        TlsModel {
            enabled: self.enabled,
            cert_file: self.cert_file@,
            key_file: self.key_file@,
            ca_file: match self.ca_file {
                Some(ca) => Some(ca@),
                None => None,
            },
            require_client_cert: self.require_client_cert,
            min_version: self.min_version,
        }
    }
}

impl Default for TlsConfig {
    /// TLS off, the certificate and key under `certs/`, no client
    /// certificates, TLS 1.3.
    fn default() -> (c: TlsConfig)
        ensures
            c@ == (TlsModel {
                enabled: false,
                cert_file: "certs/server.crt"@,
                key_file: "certs/server.key"@,
                ca_file: None,
                require_client_cert: false,
                min_version: TlsVersion::Tls13,
            }),
    {
        TlsConfig {
            enabled: false,
            cert_file: String::from_str("certs/server.crt"),
            key_file: String::from_str("certs/server.key"),
            ca_file: None,
            require_client_cert: false,
            min_version: TlsVersion::Tls13,
        }
    }
}

impl TlsConfig {
    /// The same configuration with TLS on.
    pub fn enabled(self) -> (c: TlsConfig)
        ensures
            c@ == (TlsModel { enabled: true, ..self@ }),
    {
        let mut c = self;
        c.enabled = true;
        c
    }

    /// The same configuration with another certificate and key.
    pub fn with_cert(self, cert: String, key: String) -> (c: TlsConfig)
        ensures
            c@ == (TlsModel { cert_file: cert@, key_file: key@, ..self@ }),
    {
        let mut c = self;
        c.cert_file = cert;
        c.key_file = key;
        c
    }

    /// The same configuration with client certificates required and
    /// verified by a CA.
    pub fn with_mtls(self, ca: String) -> (c: TlsConfig)
        ensures
            c@ == (TlsModel { ca_file: Some(ca@), require_client_cert: true, ..self@ }),
    {
        let mut c = self;
        c.ca_file = Some(ca);
        c.require_client_cert = true;
        c
    }
}

/// Holder of the TLS configuration of a listener.
pub struct TlsAcceptor {
    config: TlsConfig,
}

impl TlsAcceptor {
    /// The configuration that this acceptor holds.
    pub closed spec fn spec_config(&self) -> TlsConfig {
        self.config
    }

    /// An acceptor with this configuration.
    pub fn new(config: TlsConfig) -> (a: TlsAcceptor)
        ensures
            a.spec_config() == config,
    {
        TlsAcceptor { config }
    }

    /// The configuration.
    pub fn config(&self) -> (c: &TlsConfig)
        ensures
            *c == self.spec_config(),
    {
        &self.config
    }

    /// Whether TLS is on.
    pub fn is_enabled(&self) -> (r: bool)
        ensures
            r == self.spec_config().enabled,
    {
        self.config.enabled
    }

    /// Whether clients must present a certificate.
    pub fn requires_client_cert(&self) -> (r: bool)
        ensures
            r == self.spec_config().require_client_cert,
    {
        self.config.require_client_cert
    }
}

} // verus!
