use udss_proxy::acl::DomainBlocker;
use udss_proxy::buffer::{BufferPool, PoolPolicy, Tier};
use udss_proxy::ca::{CaManager, RootCa};
use udss_proxy::error::ProxyError;
use udss_proxy::session::{Action, Event, Session, SessionState};

fn pool() -> BufferPool {
    BufferPool::new(8, 8, 8)
}

fn ca() -> CaManager {
    CaManager::new(RootCa { serial: 1, not_before: 0, not_after: 1_000_000, can_sign: true }, 3600)
}

fn outstanding_total(p: &BufferPool) -> usize {
    p.outstanding_count(Tier::Small)
        + p.outstanding_count(Tier::Medium)
        + p.outstanding_count(Tier::Large)
}

fn accept(p: &mut BufferPool) -> Session {
    Session::accept(p, 1024, false, false, 10).unwrap()
}

#[test]
fn end_to_end_inspected_tunnel() {
    let mut p = pool();
    let mut issuer = ca();
    let blocker = DomainBlocker::new();
    let base = outstanding_total(&p);

    let mut s = accept(&mut p);
    assert_eq!(s.state(), SessionState::Accepted);

    let a = s.parse_and_set_target(b"example.com:443");
    assert_eq!(a, Action::QueryAcl);
    assert_eq!(s.state(), SessionState::TargetParsed);
    assert_eq!(s.host, b"example.com".to_vec());
    assert_eq!(s.port, 443);

    let a = s.check_acl(&blocker);
    assert_eq!(a, Action::FetchCertificate);
    assert_eq!(s.state(), SessionState::AclChecked { allowed: true });

    let a = s.fetch_certificate(&mut issuer, 100);
    assert_eq!(a, Action::HandshakeClient);
    assert_eq!(s.state(), SessionState::CertReady);
    assert_eq!(issuer.signing_ops, 1);
    assert!(s.cert.is_some());

    let a = s.step(Event::ClientHandshakeDone);
    assert_eq!(a, Action::DialUpstream);
    let a = s.step(Event::DialSucceeded);
    assert_eq!(a, Action::HandshakeUpstream);
    let a = s.step(Event::UpstreamHandshakeDone);
    assert_eq!(a, Action::StartRelay);
    assert_eq!(s.state(), SessionState::UpstreamTlsEstablished);

    s.start_relay(&mut p, 4096).unwrap();
    assert_eq!(s.state(), SessionState::Relaying);

    let a = s.step(Event::Data { client_to_upstream: true, len: 1000 });
    assert_eq!(a, Action::ContinueRelay);
    let a = s.step(Event::Data { client_to_upstream: false, len: 2000 });
    assert_eq!(a, Action::ContinueRelay);
    let a = s.step(Event::Eof { client_to_upstream: true });
    assert_eq!(a, Action::HalfCloseUpstream);
    assert_eq!(s.state(), SessionState::Relaying);
    let a = s.step(Event::Eof { client_to_upstream: false });
    assert_eq!(a, Action::HalfCloseClient);
    assert_eq!(s.state(), SessionState::Closing);

    let rec = s.finish(&mut p, 25).unwrap();
    assert_eq!(s.state(), SessionState::Closed);
    assert_eq!(rec.host, b"example.com".to_vec());
    assert_eq!(rec.bytes_up, 1000);
    assert_eq!(rec.bytes_down, 2000);
    assert_eq!(rec.bytes_up + rec.bytes_down, 3000);
    assert_eq!(rec.duration, 15);
    assert_eq!(rec.outcome, SessionState::Closed);
    assert!(!rec.denied);

    // Exactly one record, and the pool is back where it began.
    assert!(s.finish(&mut p, 30).is_none());
    assert_eq!(outstanding_total(&p), base);
}

#[test]
fn denied_session_never_dials() {
    let mut p = pool();
    let mut raw = Vec::new();
    raw.push(b"blocked.com".to_vec());
    let mut blocker = DomainBlocker::new();
    blocker.initialize(&raw);
    let base = outstanding_total(&p);

    let mut s = accept(&mut p);
    let a = s.parse_and_set_target(b"blocked.com:443");
    assert_eq!(a, Action::QueryAcl);
    let a = s.check_acl(&blocker);
    assert_eq!(a, Action::SendRejection);
    assert_eq!(s.state(), SessionState::AclChecked { allowed: false });
    assert!(s.machine.denied);

    let a = s.step(Event::Cancelled);
    assert_eq!(a, Action::Finish);
    let rec = s.finish(&mut p, 12).unwrap();
    assert!(rec.denied);
    assert_eq!(s.state(), SessionState::Closed);
    // The upstream-dial collaborator was never invoked.
    assert!(!s.machine.dialed);
    assert_eq!(outstanding_total(&p), base);
}

#[test]
fn malformed_target_is_a_protocol_error() {
    let mut p = pool();
    let base = outstanding_total(&p);
    let mut s = accept(&mut p);
    let a = s.parse_and_set_target(b"no-port-here");
    assert_eq!(a, Action::Finish);
    assert_eq!(s.state(), SessionState::Error(ProxyError::ProtocolError));
    assert!(!s.machine.dialed);
    let rec = s.finish(&mut p, 11).unwrap();
    assert_eq!(rec.outcome, SessionState::Error(ProxyError::ProtocolError));
    assert_eq!(s.state(), SessionState::Error(ProxyError::ProtocolError));
    assert_eq!(outstanding_total(&p), base);
}

#[test]
fn certificate_failure_closes_session() {
    let mut p = pool();
    let mut issuer = CaManager::new(
        RootCa { serial: 1, not_before: 0, not_after: 10, can_sign: true },
        3600,
    );
    let blocker = DomainBlocker::new();
    let mut s = accept(&mut p);
    s.parse_and_set_target(b"example.com:443");
    s.check_acl(&blocker);
    // The root is expired at issuance time.
    let a = s.fetch_certificate(&mut issuer, 100);
    assert_eq!(a, Action::Finish);
    assert_eq!(s.state(), SessionState::Error(ProxyError::CertificateError));
    assert!(s.cert.is_none());
}

#[test]
fn client_handshake_failure_is_a_tls_error() {
    let mut p = pool();
    let mut issuer = ca();
    let blocker = DomainBlocker::new();
    let mut s = accept(&mut p);
    s.parse_and_set_target(b"example.com:443");
    s.check_acl(&blocker);
    s.fetch_certificate(&mut issuer, 100);
    let a = s.step(Event::ClientHandshakeFailed);
    assert_eq!(a, Action::Finish);
    assert_eq!(s.state(), SessionState::Error(ProxyError::TlsError));
}

#[test]
fn dial_failure_notifies_client() {
    let mut p = pool();
    let mut issuer = ca();
    let blocker = DomainBlocker::new();
    let base = outstanding_total(&p);
    let mut s = accept(&mut p);
    s.parse_and_set_target(b"example.com:443");
    s.check_acl(&blocker);
    s.fetch_certificate(&mut issuer, 100);
    s.step(Event::ClientHandshakeDone);
    let a = s.step(Event::DialFailed);
    assert_eq!(a, Action::NotifyClientError);
    assert_eq!(s.state(), SessionState::Error(ProxyError::UpstreamUnreachable));
    let rec = s.finish(&mut p, 20).unwrap();
    assert_eq!(rec.outcome, SessionState::Error(ProxyError::UpstreamUnreachable));
    assert_eq!(outstanding_total(&p), base);
}

#[test]
fn untrusted_upstream_rejected_by_default() {
    let mut p = pool();
    let mut issuer = ca();
    let blocker = DomainBlocker::new();
    let mut s = accept(&mut p);
    s.parse_and_set_target(b"example.com:443");
    s.check_acl(&blocker);
    s.fetch_certificate(&mut issuer, 100);
    s.step(Event::ClientHandshakeDone);
    s.step(Event::DialSucceeded);
    let a = s.step(Event::UpstreamHandshakeInvalid);
    assert_eq!(a, Action::Finish);
    assert_eq!(s.state(), SessionState::Error(ProxyError::TlsError));
}

#[test]
fn untrusted_upstream_allowed_under_policy() {
    let mut p = pool();
    let mut issuer = ca();
    let blocker = DomainBlocker::new();
    let mut s = Session::accept(&mut p, 1024, true, false, 10).unwrap();
    s.parse_and_set_target(b"example.com:443");
    s.check_acl(&blocker);
    s.fetch_certificate(&mut issuer, 100);
    s.step(Event::ClientHandshakeDone);
    s.step(Event::DialSucceeded);
    let a = s.step(Event::UpstreamHandshakeInvalid);
    assert_eq!(a, Action::StartRelay);
    assert_eq!(s.state(), SessionState::UpstreamTlsEstablished);
}

#[test]
fn plain_target_skips_upstream_handshake() {
    let mut p = pool();
    let mut issuer = ca();
    let blocker = DomainBlocker::new();
    let mut s = accept(&mut p);
    s.parse_and_set_target(b"example.com:8080");
    assert!(!s.machine.inspect_upstream);
    s.check_acl(&blocker);
    s.fetch_certificate(&mut issuer, 100);
    s.step(Event::ClientHandshakeDone);
    let a = s.step(Event::DialSucceeded);
    assert_eq!(a, Action::StartRelay);
    assert_eq!(s.state(), SessionState::UpstreamConnected);
    s.start_relay(&mut p, 4096).unwrap();
    assert_eq!(s.state(), SessionState::Relaying);
}

#[test]
fn idle_timeout_ends_the_session() {
    let mut p = pool();
    let mut issuer = ca();
    let blocker = DomainBlocker::new();
    let base = outstanding_total(&p);
    let mut s = accept(&mut p);
    s.parse_and_set_target(b"example.com:8080");
    s.check_acl(&blocker);
    s.fetch_certificate(&mut issuer, 100);
    s.step(Event::ClientHandshakeDone);
    s.step(Event::DialSucceeded);
    s.start_relay(&mut p, 4096).unwrap();
    let a = s.step(Event::IdleTimeout);
    assert_eq!(a, Action::Finish);
    assert_eq!(s.state(), SessionState::Closing);
    s.finish(&mut p, 99).unwrap();
    assert_eq!(s.state(), SessionState::Closed);
    assert_eq!(outstanding_total(&p), base);
}

#[test]
fn cancellation_releases_buffers_from_any_state() {
    let mut p = pool();
    let base = outstanding_total(&p);
    let mut s = accept(&mut p);
    assert_eq!(outstanding_total(&p), base + 1);
    let a = s.step(Event::Cancelled);
    assert_eq!(a, Action::Finish);
    assert_eq!(s.state(), SessionState::Closing);
    s.finish(&mut p, 10).unwrap();
    assert_eq!(s.state(), SessionState::Closed);
    assert_eq!(outstanding_total(&p), base);
}

#[test]
fn relay_io_error_ends_session_immediately() {
    let mut p = pool();
    let mut issuer = ca();
    let blocker = DomainBlocker::new();
    let mut s = accept(&mut p);
    s.parse_and_set_target(b"example.com:8080");
    s.check_acl(&blocker);
    s.fetch_certificate(&mut issuer, 100);
    s.step(Event::ClientHandshakeDone);
    s.step(Event::DialSucceeded);
    s.start_relay(&mut p, 4096).unwrap();
    s.step(Event::Data { client_to_upstream: true, len: 42 });
    let a = s.step(Event::Failed(ProxyError::UpstreamUnreachable));
    assert_eq!(a, Action::Finish);
    assert_eq!(s.state(), SessionState::Error(ProxyError::UpstreamUnreachable));
    let rec = s.finish(&mut p, 33).unwrap();
    assert_eq!(rec.bytes_up, 42);
}

#[test]
fn data_on_half_closed_direction_is_ignored() {
    let mut p = pool();
    let mut issuer = ca();
    let blocker = DomainBlocker::new();
    let mut s = accept(&mut p);
    s.parse_and_set_target(b"example.com:8080");
    s.check_acl(&blocker);
    s.fetch_certificate(&mut issuer, 100);
    s.step(Event::ClientHandshakeDone);
    s.step(Event::DialSucceeded);
    s.start_relay(&mut p, 4096).unwrap();
    s.step(Event::Eof { client_to_upstream: true });
    s.step(Event::Data { client_to_upstream: true, len: 500 });
    s.step(Event::Data { client_to_upstream: false, len: 700 });
    assert_eq!(s.machine.bytes_up, 0);
    assert_eq!(s.machine.bytes_down, 700);
}

#[test]
fn pool_rejection_during_relay_start() {
    let mut p = BufferPool::new_with_policy(1, 0, 0, PoolPolicy::Reject);
    let mut issuer = ca();
    let blocker = DomainBlocker::new();
    let mut s = Session::accept(&mut p, 1, false, false, 10).unwrap();
    s.parse_and_set_target(b"example.com:8080");
    s.check_acl(&blocker);
    s.fetch_certificate(&mut issuer, 100);
    s.step(Event::ClientHandshakeDone);
    s.step(Event::DialSucceeded);
    // Two relay buffers are needed but the small tier holds only one.
    let r = s.start_relay(&mut p, 1);
    assert_eq!(r.unwrap_err(), ProxyError::PoolExhausted);
    assert_eq!(s.state(), SessionState::Error(ProxyError::PoolExhausted));
    // The session still holds the one relay buffer it did get.
    assert_eq!(outstanding_total(&p), 1);
    s.finish(&mut p, 50).unwrap();
    assert_eq!(outstanding_total(&p), 0);
}

#[test]
fn idle_window_decision() {
    assert!(udss_proxy::session::idle_expired(100, 160, 60));
    assert!(!udss_proxy::session::idle_expired(100, 159, 60));
    assert!(!udss_proxy::session::idle_expired(200, 100, 60));
    assert!(udss_proxy::session::idle_expired(0, 0, 0));
}

#[test]
fn relay_always_starts_under_overflow_policy() {
    // Tiny capacities, overflow policy: the relay must still start; the
    // buffers beyond capacity come out tagged overflow.
    let mut p = BufferPool::new(1, 1, 1);
    let mut issuer = ca();
    let blocker = DomainBlocker::new();
    let mut s = Session::accept(&mut p, 1, false, false, 10).unwrap();
    s.parse_and_set_target(b"example.com:8080");
    s.check_acl(&blocker);
    s.fetch_certificate(&mut issuer, 100);
    s.step(Event::ClientHandshakeDone);
    s.step(Event::DialSucceeded);
    s.start_relay(&mut p, 1).unwrap();
    assert_eq!(s.state(), SessionState::Relaying);
    assert!(s.client_buf.is_some() && s.upstream_buf.is_some());
    s.step(Event::Cancelled);
    s.finish(&mut p, 20).unwrap();
    assert_eq!(outstanding_total(&p), 0);
}

#[test]
fn unexpected_event_is_an_internal_error() {
    let mut p = pool();
    let mut s = accept(&mut p);
    let a = s.step(Event::DialSucceeded);
    assert_eq!(a, Action::Finish);
    assert_eq!(s.state(), SessionState::Error(ProxyError::InternalError));
}
