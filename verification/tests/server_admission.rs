use udss_proxy::error::ProxyError;
use udss_proxy::metrics::Metrics;
use udss_proxy::server::{Admission, AdmissionPolicy, ProxyServer};
use udss_proxy::session::{OutcomeRecord, SessionState};

#[test]
fn admits_below_the_session_bound() {
    let mut s = ProxyServer::new(2, 4, AdmissionPolicy::RejectBusy);
    assert_eq!(s.on_accept(), Admission::Admitted);
    assert_eq!(s.on_accept(), Admission::Admitted);
    assert_eq!(s.active_sessions(), 2);
}

#[test]
fn rejects_at_the_bound_under_reject_policy() {
    let mut s = ProxyServer::new(1, 4, AdmissionPolicy::RejectBusy);
    assert_eq!(s.on_accept(), Admission::Admitted);
    assert_eq!(s.on_accept(), Admission::Rejected);
    assert_eq!(s.active_sessions(), 1);
}

#[test]
fn queues_at_the_bound_under_queue_policy() {
    let mut s = ProxyServer::new(1, 2, AdmissionPolicy::QueueBounded);
    assert_eq!(s.on_accept(), Admission::Admitted);
    assert_eq!(s.on_accept(), Admission::Queued);
    assert_eq!(s.on_accept(), Admission::Queued);
    // The bounded queue is full now.
    assert_eq!(s.on_accept(), Admission::Rejected);
    assert_eq!(s.queued_connections(), 2);
}

#[test]
fn session_end_promotes_a_queued_connection() {
    let mut s = ProxyServer::new(1, 2, AdmissionPolicy::QueueBounded);
    s.on_accept();
    s.on_accept();
    assert!(s.on_session_end());
    assert_eq!(s.active_sessions(), 1);
    assert_eq!(s.queued_connections(), 0);
    assert!(!s.on_session_end());
    assert_eq!(s.active_sessions(), 0);
}

#[test]
fn shutdown_stops_accepting_and_drops_the_queue() {
    let mut s = ProxyServer::new(1, 2, AdmissionPolicy::QueueBounded);
    s.on_accept();
    s.on_accept();
    assert_eq!(s.begin_shutdown(), 1);
    assert_eq!(s.on_accept(), Admission::Rejected);
    assert_eq!(s.force_close_all(), 1);
    assert_eq!(s.active_sessions(), 0);
}

#[test]
fn metrics_count_outcomes_by_kind() {
    let mut m = Metrics::new();
    m.on_accept();
    m.on_accept();
    assert_eq!(m.connections_accepted, 2);

    let closed = OutcomeRecord {
        host: b"example.com".to_vec(),
        bytes_up: 1000,
        bytes_down: 2000,
        duration: 5,
        outcome: SessionState::Closed,
        denied: false,
    };
    m.record_outcome(&closed);
    assert_eq!(m.sessions_closed, 1);
    assert_eq!(m.bytes_up, 1000);
    assert_eq!(m.bytes_down, 2000);

    let denied = OutcomeRecord {
        host: b"blocked.com".to_vec(),
        bytes_up: 0,
        bytes_down: 0,
        duration: 1,
        outcome: SessionState::Closed,
        denied: true,
    };
    m.record_outcome(&denied);
    assert_eq!(m.sessions_denied, 1);
    assert_eq!(m.sessions_closed, 2);

    let failed = OutcomeRecord {
        host: b"down.example".to_vec(),
        bytes_up: 0,
        bytes_down: 0,
        duration: 30,
        outcome: SessionState::Error(ProxyError::UpstreamUnreachable),
        denied: false,
    };
    m.record_outcome(&failed);
    assert_eq!(m.err_upstream, 1);
    assert_eq!(m.err_tls, 0);
    assert_eq!(m.sessions_closed, 2);
}

#[test]
fn error_kind_names_are_stable() {
    assert_eq!(ProxyError::ConfigError.kind_name(), "config_error");
    assert_eq!(ProxyError::CertificateError.kind_name(), "certificate_error");
    assert_eq!(ProxyError::TlsError.kind_name(), "tls_error");
    assert_eq!(ProxyError::ProtocolError.kind_name(), "protocol_error");
    assert_eq!(ProxyError::UpstreamUnreachable.kind_name(), "upstream_unreachable");
    assert_eq!(ProxyError::AclDenied.kind_name(), "acl_denied");
    assert_eq!(ProxyError::PoolExhausted.kind_name(), "pool_exhausted");
    assert_eq!(ProxyError::InternalError.kind_name(), "internal_error");
}
