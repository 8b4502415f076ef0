//! Process-wide counters. Sessions report outcomes; every counter only
//! ever moves up (saturating), and one outcome record moves exactly the
//! counters it concerns.

use vstd::prelude::*;
use crate::ca::sat_add64;
use crate::error::ProxyError;
use crate::session::{OutcomeRecord, SessionState};

verus! {

/// Connection and outcome counters.
#[derive(Clone, Copy, Debug, PartialEq, Eq, Structural)]
pub struct Metrics {
    pub connections_accepted: u64,
    pub bytes_up: u64,
    pub bytes_down: u64,
    /// Sessions that ended in `Closed`.
    pub sessions_closed: u64,
    /// Sessions the access policy denied.
    pub sessions_denied: u64,
    pub err_config: u64,
    pub err_certificate: u64,
    pub err_tls: u64,
    pub err_protocol: u64,
    pub err_upstream: u64,
    pub err_acl: u64,
    pub err_pool: u64,
    pub err_internal: u64,
}

impl Metrics {
    /// The failure counter for one error kind.
    pub open spec fn err_count(self, e: ProxyError) -> u64 {
        match e {
            ProxyError::ConfigError => self.err_config,
            ProxyError::CertificateError => self.err_certificate,
            ProxyError::TlsError => self.err_tls,
            ProxyError::ProtocolError => self.err_protocol,
            ProxyError::UpstreamUnreachable => self.err_upstream,
            ProxyError::AclDenied => self.err_acl,
            ProxyError::PoolExhausted => self.err_pool,
            ProxyError::InternalError => self.err_internal,
        }
    }

    /// All counters at zero.
    pub fn new() -> (m: Metrics)
        ensures
            m == (Metrics {
                connections_accepted: 0u64,
                bytes_up: 0u64,
                bytes_down: 0u64,
                sessions_closed: 0u64,
                sessions_denied: 0u64,
                err_config: 0u64,
                err_certificate: 0u64,
                err_tls: 0u64,
                err_protocol: 0u64,
                err_upstream: 0u64,
                err_acl: 0u64,
                err_pool: 0u64,
                err_internal: 0u64,
            }),
    {
        Metrics {
            connections_accepted: 0,
            bytes_up: 0,
            bytes_down: 0,
            sessions_closed: 0,
            sessions_denied: 0,
            err_config: 0,
            err_certificate: 0,
            err_tls: 0,
            err_protocol: 0,
            err_upstream: 0,
            err_acl: 0,
            err_pool: 0,
            err_internal: 0,
        }
    }

    /// Count one accepted connection.
    pub fn on_accept(&mut self)
        ensures
            final(self).connections_accepted == sat_add64(old(self).connections_accepted, 1),
            *final(self) == (Metrics {
                connections_accepted: final(self).connections_accepted,
                ..*old(self)
            }),
    {
        self.connections_accepted = sat_add(self.connections_accepted, 1);
    }

    /// Fold one session's outcome record in: the relayed bytes, the
    /// denial flag, and either the closed counter or the failure counter
    /// of the error kind the session ended with. Nothing else moves.
    pub fn record_outcome(&mut self, rec: &OutcomeRecord)
        ensures
            final(self).bytes_up == sat_add64(old(self).bytes_up, rec.bytes_up),
            final(self).bytes_down == sat_add64(old(self).bytes_down, rec.bytes_down),
            final(self).sessions_denied == (if rec.denied {
                sat_add64(old(self).sessions_denied, 1)
            } else {
                old(self).sessions_denied
            }),
            match rec.outcome {
                SessionState::Error(e) => {
                    &&& final(self).err_count(e) == sat_add64(old(self).err_count(e), 1)
                    &&& forall|e2: ProxyError| e2 != e
                        ==> #[trigger] final(self).err_count(e2) == old(self).err_count(e2)
                    &&& final(self).sessions_closed == old(self).sessions_closed
                },
                _ => {
                    &&& final(self).sessions_closed == sat_add64(old(self).sessions_closed, 1)
                    &&& forall|e2: ProxyError|
                        #[trigger] final(self).err_count(e2) == old(self).err_count(e2)
                },
            },
            final(self).connections_accepted == old(self).connections_accepted,
    {
        self.bytes_up = sat_add(self.bytes_up, rec.bytes_up);
        self.bytes_down = sat_add(self.bytes_down, rec.bytes_down);
        if rec.denied {
            self.sessions_denied = sat_add(self.sessions_denied, 1);
        }
        match rec.outcome {
            SessionState::Error(e) => {
                match e {
                    ProxyError::ConfigError => {
                        self.err_config = sat_add(self.err_config, 1);
                    },
                    ProxyError::CertificateError => {
                        self.err_certificate = sat_add(self.err_certificate, 1);
                    },
                    ProxyError::TlsError => {
                        self.err_tls = sat_add(self.err_tls, 1);
                    },
                    ProxyError::ProtocolError => {
                        self.err_protocol = sat_add(self.err_protocol, 1);
                    },
                    ProxyError::UpstreamUnreachable => {
                        self.err_upstream = sat_add(self.err_upstream, 1);
                    },
                    ProxyError::AclDenied => {
                        self.err_acl = sat_add(self.err_acl, 1);
                    },
                    ProxyError::PoolExhausted => {
                        self.err_pool = sat_add(self.err_pool, 1);
                    },
                    ProxyError::InternalError => {
                        self.err_internal = sat_add(self.err_internal, 1);
                    },
                }
            },
            _ => {
                self.sessions_closed = sat_add(self.sessions_closed, 1);
            },
        }
    }
}

/// Saturating add on counters.
fn sat_add(a: u64, b: u64) -> (r: u64)
    ensures
        r == sat_add64(a, b),
{
    if a > u64::MAX - b {
        u64::MAX
    } else {
        a + b
    }
}

} // verus!
