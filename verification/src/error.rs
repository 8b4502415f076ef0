//! Error taxonomy for the proxy core. Every per-session failure is one of
//! these kinds; all of them are recovered at session scope by the callers.

use vstd::prelude::*;

verus! {

/// The kinds of failure the proxy core distinguishes.
#[derive(Clone, Copy, Debug, PartialEq, Eq, Structural)]
pub enum ProxyError {
    /// Bad paths or options in the supplied configuration.
    ConfigError,
    /// Certificate generation, parsing, expiry or corruption.
    CertificateError,
    /// TLS handshake failure or unsupported protocol.
    TlsError,
    /// Malformed or missing target in the initial exchange.
    ProtocolError,
    /// Resolution, connect or timeout failure toward the upstream.
    UpstreamUnreachable,
    /// The access policy denied the target; an expected outcome, not a fault.
    AclDenied,
    /// A buffer tier was at capacity under a non-waiting policy.
    PoolExhausted,
    /// An unexpected invariant violation.
    InternalError,
}

impl ProxyError {
    /// A short stable name for the error kind, for outcome records.
    pub fn kind_name(&self) -> (r: &'static str)
        ensures
            r@ =~= self.kind_name_spec(),
    {
        match self {
            ProxyError::ConfigError => "config_error",
            ProxyError::CertificateError => "certificate_error",
            ProxyError::TlsError => "tls_error",
            ProxyError::ProtocolError => "protocol_error",
            ProxyError::UpstreamUnreachable => "upstream_unreachable",
            ProxyError::AclDenied => "acl_denied",
            ProxyError::PoolExhausted => "pool_exhausted",
            ProxyError::InternalError => "internal_error",
        }
    }

    /// What `kind_name` returns for each kind.
    pub open spec fn kind_name_spec(self) -> Seq<char> {
        match self {
            ProxyError::ConfigError => "config_error"@,
            ProxyError::CertificateError => "certificate_error"@,
            ProxyError::TlsError => "tls_error"@,
            ProxyError::ProtocolError => "protocol_error"@,
            ProxyError::UpstreamUnreachable => "upstream_unreachable"@,
            ProxyError::AclDenied => "acl_denied"@,
            ProxyError::PoolExhausted => "pool_exhausted"@,
            ProxyError::InternalError => "internal_error"@,
        }
    }
}

} // verus!
