//! Per-connection session engine: a strict state machine that sequences
//! target parsing, the access-policy check, leaf-certificate issuance, both
//! TLS handshakes, the upstream dial and the bidirectional relay, and that
//! accounts for every buffer it borrows from the pool. The driver performs
//! the I/O each returned [`Action`] asks for and reports the outcome back as
//! an [`Event`]; every decision lives here.

use vstd::prelude::*;
use crate::acl::DomainBlocker;
use crate::buffer::{Buffer, BufferPool, Tier};
use crate::ca::{CaManager, LeafCert, issue_step};
use crate::error::ProxyError;

verus! {

/// The states a session moves through, in order, with `Error` reachable
/// from every non-terminal state. `Closed` and `Error` are terminal.
#[derive(Clone, Copy, Debug, PartialEq, Eq, Structural)]
pub enum SessionState {
    Accepted,
    TargetParsed,
    AclChecked { allowed: bool },
    CertReady,
    ClientTlsEstablished,
    UpstreamConnected,
    UpstreamTlsEstablished,
    Relaying,
    Closing,
    Closed,
    Error(ProxyError),
}

/// What the driver must do next.
#[derive(Clone, Copy, Debug, PartialEq, Eq, Structural)]
pub enum Action {
    /// Ask the domain blocker about the parsed target.
    QueryAcl,
    /// Send the policy-defined rejection response to the client.
    SendRejection,
    /// Request a leaf certificate for the target host.
    FetchCertificate,
    /// Perform the TLS handshake with the client.
    HandshakeClient,
    /// Dial the target host and port.
    DialUpstream,
    /// Perform the TLS client handshake toward the upstream.
    HandshakeUpstream,
    /// Attach relay buffers and start both copy directions.
    StartRelay,
    /// Keep relaying bytes in both open directions.
    ContinueRelay,
    /// Forward the client's end-of-stream to the upstream socket.
    HalfCloseUpstream,
    /// Forward the upstream's end-of-stream to the client socket.
    HalfCloseClient,
    /// Tell the client the upstream is unreachable, then finish.
    NotifyClientError,
    /// Release buffers, close both sockets, emit the outcome record.
    Finish,
    /// Nothing left to do.
    Idle,
}

/// What the driver observed while carrying out the last action.
#[derive(Clone, Copy, Debug, PartialEq, Eq, Structural)]
pub enum Event {
    /// A target was parsed; the session will inspect the upstream's TLS.
    TargetFound { inspect_upstream: bool },
    /// The initial exchange held no usable target.
    TargetMissing,
    /// The access policy's verdict for the target host.
    AclDecision { blocked: bool },
    /// A leaf certificate is ready.
    CertIssued,
    /// Certificate issuance failed.
    CertFailed,
    ClientHandshakeDone,
    ClientHandshakeFailed,
    DialSucceeded,
    DialFailed,
    UpstreamHandshakeDone,
    /// The upstream certificate failed validation; policy decides.
    UpstreamHandshakeInvalid,
    /// Relay buffers are attached; both directions may run.
    RelayReady,
    /// `len` bytes were copied in one direction.
    Data { client_to_upstream: bool, len: u64 },
    /// One direction observed end-of-stream.
    Eof { client_to_upstream: bool },
    /// No bytes moved in either direction for the configured window.
    IdleTimeout,
    /// Server shutdown or driver-side cancellation.
    Cancelled,
    /// An I/O error ended the session.
    Failed(ProxyError),
}

/// The decision core of a session: its state, the mode flags fixed at
/// configuration and target-parse time, the relay byte counters, and two
/// history bits — whether the policy ever denied this session and whether
/// an upstream dial was ever requested.
#[derive(Clone, Copy, Debug, PartialEq, Eq, Structural)]
pub struct Machine {
    pub state: SessionState,
    /// Perform a TLS client handshake toward the upstream (chosen once,
    /// when the target is parsed).
    pub inspect_upstream: bool,
    /// Configuration: accept an upstream certificate that fails validation.
    pub allow_untrusted_upstream: bool,
    /// Configuration: on denial, close silently instead of sending a
    /// rejection response.
    pub silent_deny: bool,
    /// The access policy denied this session.
    pub denied: bool,
    /// An upstream dial was requested at some point.
    pub dialed: bool,
    /// The client-to-upstream direction has not seen end-of-stream.
    pub up_open: bool,
    /// The upstream-to-client direction has not seen end-of-stream.
    pub down_open: bool,
    pub bytes_up: u64,
    pub bytes_down: u64,
}

impl Machine {
    /// History bits agree with the state: a denied session sits in its
    /// denial state or a terminal/cleanup state and never dialed, and no
    /// session has dialed before its client handshake finished.
    pub open spec fn wf(self) -> bool {
        &&& self.denied ==> {
            &&& !self.dialed
            &&& (self.state == (SessionState::AclChecked { allowed: false })
                || self.state == SessionState::Closing || self.state == SessionState::Closed
                || self.state is Error)
        }
        &&& (self.state == SessionState::Accepted || self.state == SessionState::TargetParsed
            || self.state is AclChecked || self.state == SessionState::CertReady)
            ==> !self.dialed
    }

    /// The machine a fresh session starts with.
    pub open spec fn initial(allow_untrusted_upstream: bool, silent_deny: bool) -> Machine {
        Machine {
            state: SessionState::Accepted,
            inspect_upstream: false,
            allow_untrusted_upstream,
            silent_deny,
            denied: false,
            dialed: false,
            up_open: true,
            down_open: true,
            bytes_up: 0,
            bytes_down: 0,
        }
    }
}

/// An unexpected event for the current state: an invariant violation ends
/// the session.
pub open spec fn fail_internal(m: Machine) -> (Machine, Action) {
    (Machine { state: SessionState::Error(ProxyError::InternalError), ..m }, Action::Finish)
}

/// The transition function: from a machine and an observed event to the
/// next machine and the next action. Terminal and cleanup states absorb
/// every event; cancellation moves any live state to cleanup; a reported
/// failure moves any live state to the matching `Error`.
pub open spec fn step_spec(m: Machine, ev: Event) -> (Machine, Action) {
    if m.state == SessionState::Closed {
        (m, Action::Idle)
    } else if m.state == SessionState::Closing || m.state is Error {
        (m, Action::Finish)
    } else {
        match ev {
            Event::Cancelled => (Machine { state: SessionState::Closing, ..m }, Action::Finish),
            Event::Failed(e) => (Machine { state: SessionState::Error(e), ..m }, Action::Finish),
            Event::TargetFound { inspect_upstream } => if m.state == SessionState::Accepted {
                (
                    Machine { state: SessionState::TargetParsed, inspect_upstream, ..m },
                    Action::QueryAcl,
                )
            } else {
                fail_internal(m)
            },
            Event::TargetMissing => if m.state == SessionState::Accepted {
                (
                    Machine { state: SessionState::Error(ProxyError::ProtocolError), ..m },
                    Action::Finish,
                )
            } else {
                fail_internal(m)
            },
            Event::AclDecision { blocked } => if m.state == SessionState::TargetParsed {
                if blocked {
                    (
                        Machine {
                            state: SessionState::AclChecked { allowed: false },
                            denied: true,
                            ..m
                        },
                        if m.silent_deny {
                            Action::Finish
                        } else {
                            Action::SendRejection
                        },
                    )
                } else {
                    (
                        Machine { state: SessionState::AclChecked { allowed: true }, ..m },
                        Action::FetchCertificate,
                    )
                }
            } else {
                fail_internal(m)
            },
            Event::CertIssued => if m.state == (SessionState::AclChecked { allowed: true }) {
                (Machine { state: SessionState::CertReady, ..m }, Action::HandshakeClient)
            } else {
                fail_internal(m)
            },
            Event::CertFailed => if m.state == (SessionState::AclChecked { allowed: true }) {
                (
                    Machine { state: SessionState::Error(ProxyError::CertificateError), ..m },
                    Action::Finish,
                )
            } else {
                fail_internal(m)
            },
            Event::ClientHandshakeDone => if m.state == SessionState::CertReady {
                (
                    Machine { state: SessionState::ClientTlsEstablished, dialed: true, ..m },
                    Action::DialUpstream,
                )
            } else {
                fail_internal(m)
            },
            Event::ClientHandshakeFailed => if m.state == SessionState::CertReady {
                (Machine { state: SessionState::Error(ProxyError::TlsError), ..m }, Action::Finish)
            } else {
                fail_internal(m)
            },
            Event::DialSucceeded => if m.state == SessionState::ClientTlsEstablished {
                (
                    Machine { state: SessionState::UpstreamConnected, ..m },
                    if m.inspect_upstream {
                        Action::HandshakeUpstream
                    } else {
                        Action::StartRelay
                    },
                )
            } else {
                fail_internal(m)
            },
            Event::DialFailed => if m.state == SessionState::ClientTlsEstablished {
                (
                    Machine { state: SessionState::Error(ProxyError::UpstreamUnreachable), ..m },
                    Action::NotifyClientError,
                )
            } else {
                fail_internal(m)
            },
            Event::UpstreamHandshakeDone => if m.state == SessionState::UpstreamConnected
                && m.inspect_upstream {
                (Machine { state: SessionState::UpstreamTlsEstablished, ..m }, Action::StartRelay)
            } else {
                fail_internal(m)
            },
            Event::UpstreamHandshakeInvalid => if m.state == SessionState::UpstreamConnected
                && m.inspect_upstream {
                if m.allow_untrusted_upstream {
                    (
                        Machine { state: SessionState::UpstreamTlsEstablished, ..m },
                        Action::StartRelay,
                    )
                } else {
                    (
                        Machine { state: SessionState::Error(ProxyError::TlsError), ..m },
                        Action::Finish,
                    )
                }
            } else {
                fail_internal(m)
            },
            Event::RelayReady => if (m.state == SessionState::UpstreamConnected
                && !m.inspect_upstream) || m.state == SessionState::UpstreamTlsEstablished {
                (Machine { state: SessionState::Relaying, ..m }, Action::ContinueRelay)
            } else {
                fail_internal(m)
            },
            Event::Data { client_to_upstream, len } => if m.state == SessionState::Relaying {
                if client_to_upstream && m.up_open {
                    (
                        Machine { bytes_up: crate::ca::sat_add64(m.bytes_up, len), ..m },
                        Action::ContinueRelay,
                    )
                } else if !client_to_upstream && m.down_open {
                    (
                        Machine { bytes_down: crate::ca::sat_add64(m.bytes_down, len), ..m },
                        Action::ContinueRelay,
                    )
                } else {
                    (m, Action::ContinueRelay)
                }
            } else {
                fail_internal(m)
            },
            Event::Eof { client_to_upstream } => if m.state == SessionState::Relaying {
                if client_to_upstream {
                    (
                        Machine {
                            up_open: false,
                            state: if m.down_open {
                                SessionState::Relaying
                            } else {
                                SessionState::Closing
                            },
                            ..m
                        },
                        Action::HalfCloseUpstream,
                    )
                } else {
                    (
                        Machine {
                            down_open: false,
                            state: if m.up_open {
                                SessionState::Relaying
                            } else {
                                SessionState::Closing
                            },
                            ..m
                        },
                        Action::HalfCloseClient,
                    )
                }
            } else {
                fail_internal(m)
            },
            Event::IdleTimeout => if m.state == SessionState::Relaying {
                (Machine { state: SessionState::Closing, ..m }, Action::Finish)
            } else {
                fail_internal(m)
            },
        }
    }
}

/// Every transition keeps the machine well formed.
pub proof fn lemma_step_preserves_wf(m: Machine, ev: Event)
    requires
        m.wf(),
    ensures
        step_spec(m, ev).0.wf(),
{
}

/// A denied machine stays denied and is never told to dial.
pub proof fn lemma_denied_step(m: Machine, ev: Event)
    requires
        m.wf(),
        m.denied,
    ensures
        step_spec(m, ev).0.denied,
        step_spec(m, ev).0.wf(),
        step_spec(m, ev).1 != Action::DialUpstream,
{
}

/// The machine after feeding `evs` in order.
pub open spec fn run_machine(m: Machine, evs: Seq<Event>) -> Machine
    decreases evs.len(),
{
    if evs.len() == 0 {
        m
    } else {
        run_machine(step_spec(m, evs[0]).0, evs.drop_first())
    }
}

/// Some step along `evs` asks for an upstream dial.
pub open spec fn trace_dials(m: Machine, evs: Seq<Event>) -> bool
    decreases evs.len(),
{
    evs.len() > 0 && (step_spec(m, evs[0]).1 == Action::DialUpstream || trace_dials(
        step_spec(m, evs[0]).0,
        evs.drop_first(),
    ))
}

/// Law (denial bars the dial): once a session has been denied by the
/// access policy, no sequence of further events ever produces the
/// `DialUpstream` action — the upstream-dial collaborator is never invoked.
pub proof fn lemma_denied_never_dials(m: Machine, evs: Seq<Event>)
    requires
        m.wf(),
        m.denied,
    ensures
        !trace_dials(m, evs),
        run_machine(m, evs).denied,
    decreases evs.len(),
{
    if evs.len() > 0 {
        lemma_denied_step(m, evs[0]);
        lemma_denied_never_dials(step_spec(m, evs[0]).0, evs.drop_first());
    }
}

/// The target prefix of the initial exchange: the bytes before the first
/// colon.
pub open spec fn raw_host(s: Seq<u8>) -> Seq<u8>
    decreases s.len(),
{
    if s.len() == 0 {
        Seq::empty()
    } else if s[0] == 58 {
        Seq::empty()
    } else {
        seq![s[0]] + raw_host(s.subrange(1, s.len() as int))
    }
}

/// Some byte is a colon.
pub open spec fn has_colon(s: Seq<u8>) -> bool {
    exists|i: int| 0 <= i < s.len() && s[i] == 58
}

/// Every byte is an ASCII decimal digit.
pub open spec fn all_digits(s: Seq<u8>) -> bool {
    forall|i: int| 0 <= i < s.len() ==> 48 <= #[trigger] s[i] <= 57
}

/// The number the digit string denotes.
pub open spec fn digits_val(s: Seq<u8>) -> int
    decreases s.len(),
{
    if s.len() == 0 {
        0
    } else {
        digits_val(s.drop_last()) * 10 + (s.last() - 48)
    }
}

/// What follows the first colon (meaningful when `has_colon(s)`).
pub open spec fn port_digits(s: Seq<u8>) -> Seq<u8> {
    s.subrange(raw_host(s).len() as int + 1, s.len() as int)
}

/// The target a well-formed initial exchange denotes: a nonempty colon-free
/// host, a colon, then one to five digits valued at most 65535.
pub open spec fn parse_target_spec(s: Seq<u8>) -> Option<(Seq<u8>, u16)> {
    if has_colon(s) && raw_host(s).len() > 0 && port_digits(s).len() > 0 && port_digits(s).len()
        <= 5 && all_digits(port_digits(s)) && digits_val(port_digits(s)) <= 65535 {
        Some((raw_host(s), digits_val(port_digits(s)) as u16))
    } else {
        None
    }
}

/// If the first `j` bytes of `s` are colon-free and position `j` is the end
/// or a colon, the raw host is exactly the `j`-byte prefix.
proof fn lemma_raw_host_prefix(s: Seq<u8>, j: int)
    requires
        0 <= j <= s.len(),
        forall|i: int| 0 <= i < j ==> s[i] != 58,
        j == s.len() || s[j] == 58,
    ensures
        raw_host(s) == s.take(j),
    decreases j,
{
    if j == 0 {
        assert(raw_host(s) =~= s.take(0));
    } else {
        let rest = s.subrange(1, s.len() as int);
        lemma_raw_host_prefix(rest, j - 1);
        assert(raw_host(s) =~= s.take(j)) by {
            assert forall|k: int| 0 <= k < j implies raw_host(s)[k] == s.take(j)[k] by {
                if k > 0 {
                    assert(raw_host(s)[k] == raw_host(rest)[k - 1]);
                    assert(rest.take(j - 1)[k - 1] == s[k]);
                }
            }
        }
    }
}

/// Index of the first colon, if any.
fn find_colon(data: &[u8]) -> (r: Option<usize>)
    ensures
        match r {
            Some(j) => j < data@.len() && data@[j as int] == 58 && (forall|i: int|
                0 <= i < j ==> data@[i] != 58),
            None => forall|i: int| 0 <= i < data@.len() ==> data@[i] != 58,
        },
{
    let n = data.len();
    let mut j: usize = 0;
    while j < n
        invariant
            j <= n,
            n == data@.len(),
            forall|i: int| 0 <= i < j ==> data@[i] != 58,
        decreases n - j,
    {
        if data[j] == 58 {
            return Some(j);
        }
        j = j + 1;
    }
    None
}

/// Parse `host:port` out of the initial exchange. Returns the target
/// exactly when the bytes denote one (nonempty colon-free host, one to
/// five digits, value at most 65535), and nothing otherwise.
pub fn parse_target(data: &[u8]) -> (r: Option<(Vec<u8>, u16)>)
    ensures
        match r {
            Some(hp) => parse_target_spec(data@) == Some((hp.0@, hp.1)),
            None => parse_target_spec(data@) is None,
        },
{
    let n = data.len();
    let j = match find_colon(data) {
        Some(j) => j,
        None => {
            return None;
        },
    };
    proof {
        lemma_raw_host_prefix(data@, j as int);
    }
    if j == 0 {
        return None;
    }
    let dn = n - j - 1;
    if dn == 0 || dn > 5 {
        return None;
    }
    let ghost digs = port_digits(data@);
    proof {
        assert(raw_host(data@).len() == j);
        assert(digs =~= data@.subrange(j as int + 1, n as int));
    }
    let mut val: u32 = 0;
    let mut k: usize = 0;
    while k < dn
        invariant
            k <= dn,
            0 < dn <= 5,
            j + 1 + dn == n,
            n == data@.len(),
            j < n,
            digs == data@.subrange(j as int + 1, n as int),
            digs == port_digits(data@),
            digs.len() == dn,
            forall|i: int| 0 <= i < k ==> 48 <= #[trigger] digs[i] <= 57,
            val == digits_val(digs.take(k as int)),
            k == 0 ==> val == 0,
            k <= 1 ==> val < 10,
            k <= 2 ==> val < 100,
            k <= 3 ==> val < 1000,
            k <= 4 ==> val < 10000,
            val < 100000,
        decreases dn - k,
    {
        let c = data[j + 1 + k];
        proof {
            assert(digs[k as int] == data@[j as int + 1 + k]);
        }
        if !(48 <= c && c <= 57) {
            proof {
                assert(!all_digits(digs));
            }
            return None;
        }
        proof {
            assert(digs.take(k as int + 1).drop_last() =~= digs.take(k as int));
            assert(digs.take(k as int + 1).last() == digs[k as int]);
        }
        val = val * 10 + (c - 48) as u32;
        k = k + 1;
    }
    proof {
        assert(digs.take(dn as int) =~= digs);
    }
    if val > 65535 {
        return None;
    }
    let mut host: Vec<u8> = Vec::new();
    let mut i: usize = 0;
    while i < j
        invariant
            i <= j,
            j < data@.len(),
            host@ == data@.take(i as int),
        decreases j - i,
    {
        let b = data[i];
        host.push(b);
        proof {
            assert(host@ =~= data@.take(i as int + 1));
        }
        i = i + 1;
    }
    Some((host, val as u16))
}

/// One structured outcome record, emitted exactly once per session.
pub struct OutcomeRecord {
    /// The target host the session was for (empty if none was parsed).
    pub host: Vec<u8>,
    pub bytes_up: u64,
    pub bytes_down: u64,
    /// Seconds between accept and the end of the session.
    pub duration: u64,
    /// The terminal state: `Closed`, or `Error` with its kind.
    pub outcome: SessionState,
    /// The session ended because the access policy denied it.
    pub denied: bool,
}

/// How many pooled buffers of tier `t` the slot holds (0 or 1; overflow
/// buffers are not pooled and do not count).
pub open spec fn slot_held(b: Option<Buffer>, t: Tier) -> int {
    match b {
        Some(buf) => if !buf.overflow && buf.tier == t {
            1
        } else {
            0
        },
        None => 0,
    }
}

/// When starting the relay is refused. The relay needs two chunk-sized
/// buffers from the smallest tier covering `chunk_size`, after the
/// session's initial-read buffer goes back to the pool. Under the
/// rejecting policy that fails exactly when the tier cannot supply two
/// checkouts: its outstanding count, less the returned initial buffer, is
/// already within one of its capacity. Under the overflow policy it never
/// fails.
pub open spec fn relay_start_rejected(s: Session, pool: BufferPool, chunk_size: int) -> bool {
    let t = pool.tier_of_hint(chunk_size);
    &&& pool.policy == crate::buffer::PoolPolicy::Reject
    &&& chunk_size <= pool.large.size
    &&& pool.tier(t).outstanding - slot_held(s.client_buf, t) + 2 > pool.tier(t).capacity
}

/// A buffer slot fits the pool: a pooled buffer has its tier's size.
pub open spec fn slot_fits(b: Option<Buffer>, pool: BufferPool) -> bool {
    match b {
        Some(buf) => !buf.overflow ==> buf.data@.len() == pool.tier(buf.tier).size,
        None => true,
    }
}

/// One session: the decision core plus the target, the issued leaf, the
/// buffers checked out to it (at most one per direction), and the
/// outcome-record guard.
pub struct Session {
    pub machine: Machine,
    /// Target host as parsed (raw bytes; consumers normalize).
    pub host: Vec<u8>,
    pub port: u16,
    pub cert: Option<LeafCert>,
    /// Buffer for the client-to-upstream direction.
    pub client_buf: Option<Buffer>,
    /// Buffer for the upstream-to-client direction.
    pub upstream_buf: Option<Buffer>,
    pub record_emitted: bool,
    /// Accept time, for the record's duration.
    pub started_at: u64,
}

impl Session {
    /// Pooled buffers of tier `t` this session holds.
    pub open spec fn held(self, t: Tier) -> int {
        slot_held(self.client_buf, t) + slot_held(self.upstream_buf, t)
    }

    /// Pooled buffers this session holds, over all tiers.
    pub open spec fn held_total(self) -> int {
        self.held(Tier::Small) + self.held(Tier::Medium) + self.held(Tier::Large)
    }

    /// The session's buffers fit `pool`: right sizes, and the pool's
    /// outstanding counts cover what the session holds.
    pub open spec fn buffers_wf(self, pool: BufferPool) -> bool {
        &&& slot_fits(self.client_buf, pool)
        &&& slot_fits(self.upstream_buf, pool)
        &&& forall|t: Tier| #[trigger] pool.tier(t).outstanding >= self.held(t)
    }

    /// Accept a connection: build a fresh session and check out one buffer
    /// to read the initial request into. Fails with `PoolExhausted` exactly
    /// when the pool does under its rejecting policy.
    pub fn accept(
        pool: &mut BufferPool,
        read_size_hint: usize,
        allow_untrusted_upstream: bool,
        silent_deny: bool,
        now: u64,
    ) -> (r: Result<Session, ProxyError>)
        requires
            old(pool).wf(),
        ensures
            final(pool).wf(),
            final(pool).same_config(*old(pool)),
            r is Err <==> (old(pool).policy == crate::buffer::PoolPolicy::Reject
                && read_size_hint <= old(pool).large.size
                && old(pool).at_capacity(old(pool).tier_of_hint(read_size_hint as int))),
            match r {
                Ok(s) => {
                    &&& s.machine == Machine::initial(allow_untrusted_upstream, silent_deny)
                    &&& s.machine.wf()
                    &&& s.host@.len() == 0
                    &&& s.cert is None
                    &&& s.client_buf is Some
                    &&& s.client_buf.unwrap().data@.len() >= read_size_hint
                    &&& s.upstream_buf is None
                    &&& !s.record_emitted
                    &&& s.started_at == now
                    &&& s.buffers_wf(*final(pool))
                    &&& forall|t: Tier|
                        #[trigger] final(pool).tier(t).outstanding - s.held(t)
                            == old(pool).tier(t).outstanding
                },
                Err(e) => e == ProxyError::PoolExhausted && *final(pool) == *old(pool),
            },
    {
        let b = match pool.acquire(read_size_hint) {
            Ok(b) => b,
            Err(e) => {
                return Err(e);
            },
        };
        let s = Session {
            machine: Machine {
                state: SessionState::Accepted,
                inspect_upstream: false,
                allow_untrusted_upstream,
                silent_deny,
                denied: false,
                dialed: false,
                up_open: true,
                down_open: true,
                bytes_up: 0,
                bytes_down: 0,
            },
            host: Vec::new(),
            port: 0,
            cert: None,
            client_buf: Some(b),
            upstream_buf: None,
            record_emitted: false,
            started_at: now,
        };
        Ok(s)
    }

    /// Feed one observed event to the decision core and get the next
    /// action. Everything but the machine is untouched.
    pub fn step(&mut self, ev: Event) -> (a: Action)
        requires
            old(self).machine.wf(),
        ensures
            final(self).machine == step_spec(old(self).machine, ev).0,
            a == step_spec(old(self).machine, ev).1,
            final(self).machine.wf(),
            final(self).host == old(self).host,
            final(self).port == old(self).port,
            final(self).cert == old(self).cert,
            final(self).client_buf == old(self).client_buf,
            final(self).upstream_buf == old(self).upstream_buf,
            final(self).record_emitted == old(self).record_emitted,
            final(self).started_at == old(self).started_at,
    {
        let m = self.machine;
        let (m2, a): (Machine, Action) = if m.state == SessionState::Closed {
            (m, Action::Idle)
        } else if m.state == SessionState::Closing || matches!(m.state, SessionState::Error(_)) {
            (m, Action::Finish)
        } else {
            match ev {
                Event::Cancelled => (
                    Machine { state: SessionState::Closing, ..m },
                    Action::Finish,
                ),
                Event::Failed(e) => (
                    Machine { state: SessionState::Error(e), ..m },
                    Action::Finish,
                ),
                Event::TargetFound { inspect_upstream } => if m.state
                    == SessionState::Accepted {
                    (
                        Machine { state: SessionState::TargetParsed, inspect_upstream, ..m },
                        Action::QueryAcl,
                    )
                } else {
                    fail_internal_exec(m)
                },
                Event::TargetMissing => if m.state == SessionState::Accepted {
                    (
                        Machine { state: SessionState::Error(ProxyError::ProtocolError), ..m },
                        Action::Finish,
                    )
                } else {
                    fail_internal_exec(m)
                },
                Event::AclDecision { blocked } => if m.state == SessionState::TargetParsed {
                    if blocked {
                        (
                            Machine {
                                state: SessionState::AclChecked { allowed: false },
                                denied: true,
                                ..m
                            },
                            if m.silent_deny {
                                Action::Finish
                            } else {
                                Action::SendRejection
                            },
                        )
                    } else {
                        (
                            Machine { state: SessionState::AclChecked { allowed: true }, ..m },
                            Action::FetchCertificate,
                        )
                    }
                } else {
                    fail_internal_exec(m)
                },
                Event::CertIssued => if m.state == (SessionState::AclChecked { allowed: true }) {
                    (Machine { state: SessionState::CertReady, ..m }, Action::HandshakeClient)
                } else {
                    fail_internal_exec(m)
                },
                Event::CertFailed => if m.state == (SessionState::AclChecked { allowed: true }) {
                    (
                        Machine { state: SessionState::Error(ProxyError::CertificateError), ..m },
                        Action::Finish,
                    )
                } else {
                    fail_internal_exec(m)
                },
                Event::ClientHandshakeDone => if m.state == SessionState::CertReady {
                    (
                        Machine { state: SessionState::ClientTlsEstablished, dialed: true, ..m },
                        Action::DialUpstream,
                    )
                } else {
                    fail_internal_exec(m)
                },
                Event::ClientHandshakeFailed => if m.state == SessionState::CertReady {
                    (
                        Machine { state: SessionState::Error(ProxyError::TlsError), ..m },
                        Action::Finish,
                    )
                } else {
                    fail_internal_exec(m)
                },
                Event::DialSucceeded => if m.state == SessionState::ClientTlsEstablished {
                    (
                        Machine { state: SessionState::UpstreamConnected, ..m },
                        if m.inspect_upstream {
                            Action::HandshakeUpstream
                        } else {
                            Action::StartRelay
                        },
                    )
                } else {
                    fail_internal_exec(m)
                },
                Event::DialFailed => if m.state == SessionState::ClientTlsEstablished {
                    (
                        Machine {
                            state: SessionState::Error(ProxyError::UpstreamUnreachable),
                            ..m
                        },
                        Action::NotifyClientError,
                    )
                } else {
                    fail_internal_exec(m)
                },
                Event::UpstreamHandshakeDone => if m.state == SessionState::UpstreamConnected
                    && m.inspect_upstream {
                    (
                        Machine { state: SessionState::UpstreamTlsEstablished, ..m },
                        Action::StartRelay,
                    )
                } else {
                    fail_internal_exec(m)
                },
                Event::UpstreamHandshakeInvalid => if m.state == SessionState::UpstreamConnected
                    && m.inspect_upstream {
                    if m.allow_untrusted_upstream {
                        (
                            Machine { state: SessionState::UpstreamTlsEstablished, ..m },
                            Action::StartRelay,
                        )
                    } else {
                        (
                            Machine { state: SessionState::Error(ProxyError::TlsError), ..m },
                            Action::Finish,
                        )
                    }
                } else {
                    fail_internal_exec(m)
                },
                Event::RelayReady => if (m.state == SessionState::UpstreamConnected
                    && !m.inspect_upstream) || m.state == SessionState::UpstreamTlsEstablished {
                    (Machine { state: SessionState::Relaying, ..m }, Action::ContinueRelay)
                } else {
                    fail_internal_exec(m)
                },
                Event::Data { client_to_upstream, len } => if m.state == SessionState::Relaying {
                    if client_to_upstream && m.up_open {
                        let nb = if m.bytes_up > u64::MAX - len {
                            u64::MAX
                        } else {
                            m.bytes_up + len
                        };
                        (Machine { bytes_up: nb, ..m }, Action::ContinueRelay)
                    } else if !client_to_upstream && m.down_open {
                        let nb = if m.bytes_down > u64::MAX - len {
                            u64::MAX
                        } else {
                            m.bytes_down + len
                        };
                        (Machine { bytes_down: nb, ..m }, Action::ContinueRelay)
                    } else {
                        (m, Action::ContinueRelay)
                    }
                } else {
                    fail_internal_exec(m)
                },
                Event::Eof { client_to_upstream } => if m.state == SessionState::Relaying {
                    if client_to_upstream {
                        (
                            Machine {
                                up_open: false,
                                state: if m.down_open {
                                    SessionState::Relaying
                                } else {
                                    SessionState::Closing
                                },
                                ..m
                            },
                            Action::HalfCloseUpstream,
                        )
                    } else {
                        (
                            Machine {
                                down_open: false,
                                state: if m.up_open {
                                    SessionState::Relaying
                                } else {
                                    SessionState::Closing
                                },
                                ..m
                            },
                            Action::HalfCloseClient,
                        )
                    }
                } else {
                    fail_internal_exec(m)
                },
                Event::IdleTimeout => if m.state == SessionState::Relaying {
                    (Machine { state: SessionState::Closing, ..m }, Action::Finish)
                } else {
                    fail_internal_exec(m)
                },
            }
        };
        self.machine = m2;
        a
    }

    /// Parse the initial exchange: record the target host and port and
    /// advance toward the policy check. A target on port 443 is inspected
    /// with an upstream TLS handshake; a missing or malformed target ends
    /// the session with `ProtocolError` and no upstream dial is attempted.
    pub fn parse_and_set_target(&mut self, data: &[u8]) -> (a: Action)
        requires
            old(self).machine.wf(),
        ensures
            final(self).machine.wf(),
            match parse_target_spec(data@) {
                Some(hp) => {
                    &&& final(self).host@ == hp.0
                    &&& final(self).port == hp.1
                    &&& ({
                        let ev = (Event::TargetFound { inspect_upstream: hp.1 == 443 });
                        &&& final(self).machine == step_spec(old(self).machine, ev).0
                        &&& a == step_spec(old(self).machine, ev).1
                    })
                },
                None => {
                    &&& final(self).host == old(self).host
                    &&& final(self).port == old(self).port
                    &&& final(self).machine == step_spec(old(self).machine, Event::TargetMissing).0
                    &&& a == step_spec(old(self).machine, Event::TargetMissing).1
                },
            },
            final(self).cert == old(self).cert,
            final(self).client_buf == old(self).client_buf,
            final(self).upstream_buf == old(self).upstream_buf,
            final(self).record_emitted == old(self).record_emitted,
            final(self).started_at == old(self).started_at,
    {
        match parse_target(data) {
            Some((h, p)) => {
                self.host = h;
                self.port = p;
                let inspect = p == 443;
                self.step(Event::TargetFound { inspect_upstream: inspect })
            },
            None => self.step(Event::TargetMissing),
        }
    }

    /// Ask the domain blocker about this session's target and advance:
    /// denial leads toward cleanup without ever dialing, permission leads
    /// to certificate fetching.
    pub fn check_acl(&mut self, blocker: &DomainBlocker) -> (a: Action)
        requires
            old(self).machine.wf(),
        ensures
            ({
                let ev = (Event::AclDecision {
                    blocked: crate::acl::blocked_by(blocker.rules_view(), old(self).host@),
                });
                &&& final(self).machine == step_spec(old(self).machine, ev).0
                &&& a == step_spec(old(self).machine, ev).1
            }),
            final(self).machine.wf(),
            final(self).host == old(self).host,
            final(self).port == old(self).port,
            final(self).cert == old(self).cert,
            final(self).client_buf == old(self).client_buf,
            final(self).upstream_buf == old(self).upstream_buf,
            final(self).record_emitted == old(self).record_emitted,
            final(self).started_at == old(self).started_at,
    {
        let blocked = blocker.is_blocked(self.host.as_slice());
        self.step(Event::AclDecision { blocked })
    }

    /// Request a leaf certificate for this session's target from the CA
    /// manager at time `now`, keep it, and advance: success leads to the
    /// client handshake, failure to `Error(CertificateError)`.
    pub fn fetch_certificate(&mut self, ca: &mut CaManager, now: u64) -> (a: Action)
        requires
            old(self).machine.wf(),
            old(ca).model().wf(),
        ensures
            final(ca).model().wf(),
            final(ca).model() == issue_step(
                old(ca).model(),
                crate::acl::normalize_host(old(self).host@),
                now,
            ).0,
            ({
                let issued = issue_step(
                    old(ca).model(),
                    crate::acl::normalize_host(old(self).host@),
                    now,
                ).1;
                match issued {
                    Ok(c) => {
                        &&& final(self).cert == Some(c)
                        &&& final(self).machine == step_spec(old(self).machine, Event::CertIssued).0
                        &&& a == step_spec(old(self).machine, Event::CertIssued).1
                    },
                    Err(_) => {
                        &&& final(self).cert == old(self).cert
                        &&& final(self).machine == step_spec(old(self).machine, Event::CertFailed).0
                        &&& a == step_spec(old(self).machine, Event::CertFailed).1
                    },
                }
            }),
            final(self).machine.wf(),
            final(self).host == old(self).host,
            final(self).port == old(self).port,
            final(self).client_buf == old(self).client_buf,
            final(self).upstream_buf == old(self).upstream_buf,
            final(self).record_emitted == old(self).record_emitted,
            final(self).started_at == old(self).started_at,
    {
        match ca.issue_leaf_certificate(self.host.as_slice(), now) {
            Ok(c) => {
                self.cert = Some(c);
                self.step(Event::CertIssued)
            },
            Err(_) => self.step(Event::CertFailed),
        }
    }

    /// Swap the initial-read buffer for relay buffers sized to
    /// `chunk_size`, one per direction, and enter `Relaying`. Under the
    /// overflow policy this always succeeds; under the rejecting policy it
    /// fails, ending the session with `PoolExhausted`, exactly when the
    /// chunk's tier cannot supply the two buffers (see
    /// [`relay_start_rejected`]).
    #[verifier::rlimit(80)]
    pub fn start_relay(&mut self, pool: &mut BufferPool, chunk_size: usize) -> (r: Result<
        (),
        ProxyError,
    >)
        requires
            old(self).machine.wf(),
            old(pool).wf(),
            old(self).buffers_wf(*old(pool)),
            old(self).upstream_buf is None,
        ensures
            final(pool).wf(),
            final(pool).same_config(*old(pool)),
            final(self).buffers_wf(*final(pool)),
            final(self).machine.wf(),
            forall|t: Tier|
                #[trigger] final(pool).tier(t).outstanding - final(self).held(t)
                    == old(pool).tier(t).outstanding - old(self).held(t),
            r is Err <==> relay_start_rejected(*old(self), *old(pool), chunk_size as int),
            old(pool).policy == crate::buffer::PoolPolicy::Overflow ==> r is Ok,
            match r {
                Ok(()) => {
                    &&& final(self).machine == step_spec(old(self).machine, Event::RelayReady).0
                    &&& final(self).client_buf is Some
                    &&& final(self).client_buf.unwrap().data@.len() >= chunk_size
                    &&& final(self).upstream_buf is Some
                    &&& final(self).upstream_buf.unwrap().data@.len() >= chunk_size
                },
                Err(e) => {
                    &&& e == ProxyError::PoolExhausted
                    &&& final(self).machine == step_spec(
                        old(self).machine,
                        Event::Failed(ProxyError::PoolExhausted),
                    ).0
                },
            },
            final(self).host == old(self).host,
            final(self).port == old(self).port,
            final(self).cert == old(self).cert,
            final(self).record_emitted == old(self).record_emitted,
            final(self).started_at == old(self).started_at,
    {
        let ghost t = old(pool).tier_of_hint(chunk_size as int);
        let ghost adj = slot_held(old(self).client_buf, t);
        if let Some(b) = self.client_buf.take() {
            pool.release(b);
        }
        proof {
            assert(pool.tier(t).outstanding == old(pool).tier(t).outstanding - adj);
            assert(pool.tier(t).free@.len() >= old(pool).tier(t).free@.len() + adj);
            assert(pool.tier_of_hint(chunk_size as int) == t);
        }
        let ghost p1 = *pool;
        let b1 = match pool.acquire(chunk_size) {
            Ok(b) => b,
            Err(e) => {
                proof {
                    assert(p1.at_capacity(t));
                    assert(relay_start_rejected(*old(self), *old(pool), chunk_size as int));
                }
                self.step(Event::Failed(ProxyError::PoolExhausted));
                return Err(e);
            },
        };
        self.client_buf = Some(b1);
        let ghost p2 = *pool;
        let b2 = match pool.acquire(chunk_size) {
            Ok(b) => b,
            Err(e) => {
                proof {
                    assert(p2.at_capacity(t));
                    assert(!b1.overflow && b1.tier == t);
                    assert(p2.tier(t).outstanding == p1.tier(t).outstanding + 1);
                    assert(relay_start_rejected(*old(self), *old(pool), chunk_size as int));
                }
                self.step(Event::Failed(ProxyError::PoolExhausted));
                return Err(e);
            },
        };
        self.upstream_buf = Some(b2);
        proof {
            if relay_start_rejected(*old(self), *old(pool), chunk_size as int) {
                // Both checkouts went through although the tier had at most
                // one to give: impossible.
                assert(!b1.overflow && b1.tier == t);
                assert(p2.tier(t).outstanding == p1.tier(t).outstanding + 1);
                assert(p1.tier(t).outstanding + p1.tier(t).free@.len() <= p1.tier(t).capacity);
                assert(p2.tier(t).free@.len() == 0);
                assert(!b2.overflow && p2.at_capacity(t));
                assert(false);
            }
        }
        self.step(Event::RelayReady);
        Ok(())
    }

    /// Finish a session on a terminal path: release every held buffer back
    /// to the pool, close out the state (`Error` stays, everything else
    /// becomes `Closed`), and emit the one outcome record — later calls
    /// return `None`. Per tier, the pool gets back exactly what the
    /// session held: its outstanding count drops by that amount.
    pub fn finish(&mut self, pool: &mut BufferPool, now: u64) -> (rec: Option<OutcomeRecord>)
        requires
            old(self).machine.wf(),
            old(pool).wf(),
            old(self).buffers_wf(*old(pool)),
            old(self).machine.state == (SessionState::AclChecked { allowed: false })
                || old(self).machine.state == SessionState::Closing || old(self).machine.state
                == SessionState::Closed || old(self).machine.state is Error,
        ensures
            final(pool).wf(),
            final(pool).same_config(*old(pool)),
            final(self).machine.wf(),
            final(self).client_buf is None,
            final(self).upstream_buf is None,
            forall|t: Tier| #[trigger] final(self).held(t) == 0,
            forall|t: Tier|
                #[trigger] final(pool).tier(t).outstanding == old(pool).tier(t).outstanding - old(
                    self,
                ).held(t),
            final(self).machine.state == (if old(self).machine.state is Error {
                old(self).machine.state
            } else {
                SessionState::Closed
            }),
            final(self).machine.denied == old(self).machine.denied,
            final(self).machine.dialed == old(self).machine.dialed,
            final(self).machine.bytes_up == old(self).machine.bytes_up,
            final(self).machine.bytes_down == old(self).machine.bytes_down,
            final(self).record_emitted,
            rec is Some <==> !old(self).record_emitted,
            match rec {
                Some(r) => {
                    &&& r.host@ == old(self).host@
                    &&& r.bytes_up == old(self).machine.bytes_up
                    &&& r.bytes_down == old(self).machine.bytes_down
                    &&& r.duration == (if now >= old(self).started_at {
                        (now - old(self).started_at) as u64
                    } else {
                        0u64
                    })
                    &&& r.outcome == final(self).machine.state
                    &&& r.denied == old(self).machine.denied
                },
                None => true,
            },
    {
        if let Some(b) = self.client_buf.take() {
            pool.release(b);
        }
        if let Some(b) = self.upstream_buf.take() {
            pool.release(b);
        }
        let terminal = match self.machine.state {
            SessionState::Error(_) => self.machine.state,
            _ => SessionState::Closed,
        };
        self.machine = Machine { state: terminal, ..self.machine };
        if self.record_emitted {
            return None;
        }
        self.record_emitted = true;
        let duration = if now >= self.started_at {
            now - self.started_at
        } else {
            0
        };
        let host_copy = copy_bytes(&self.host);
        Some(
            OutcomeRecord {
                host: host_copy,
                bytes_up: self.machine.bytes_up,
                bytes_down: self.machine.bytes_down,
                duration,
                outcome: self.machine.state,
                denied: self.machine.denied,
            },
        )
    }

    /// The current state.
    pub fn state(&self) -> (s: SessionState)
        ensures
            s == self.machine.state,
    {
        self.machine.state
    }
}

/// Law (buffer accounting closes): if a pool's per-tier outstanding counts
/// sit exactly one session's holdings above a baseline — the relation every
/// session operation preserves — then after that session's terminal path
/// the counts are back at the baseline: the pool ends where it began.
pub proof fn lemma_terminal_path_restores_pool(
    s0: Session,
    p0: BufferPool,
    base: BufferPool,
    p1: BufferPool,
)
    requires
        forall|t: Tier|
            #[trigger] p0.tier(t).outstanding == base.tier(t).outstanding + s0.held(t),
        forall|t: Tier|
            #[trigger] p1.tier(t).outstanding == p0.tier(t).outstanding - s0.held(t),
    ensures
        forall|t: Tier| #[trigger] p1.tier(t).outstanding == base.tier(t).outstanding,
{
}

/// Whether the configured idle window has closed: `now` lies at least
/// `idle_timeout` past the last moment bytes moved in either direction.
/// The driver feeds `IdleTimeout` exactly when this holds.
pub fn idle_expired(last_activity: u64, now: u64, idle_timeout: u64) -> (r: bool)
    ensures
        r == (now >= last_activity && now - last_activity >= idle_timeout),
{
    now >= last_activity && now - last_activity >= idle_timeout
}

/// A fresh vector with the same bytes.
fn copy_bytes(v: &Vec<u8>) -> (c: Vec<u8>)
    ensures
        c@ == v@,
{
    let mut c: Vec<u8> = Vec::new();
    let mut i: usize = 0;
    while i < v.len()
        invariant
            i <= v@.len(),
            c@ == v@.take(i as int),
        decreases v@.len() - i,
    {
        let b = v[i];
        c.push(b);
        proof {
            assert(c@ =~= v@.take(i as int + 1));
        }
        i = i + 1;
    }
    proof {
        assert(v@.take(v@.len() as int) =~= v@);
    }
    c
}

/// Exec twin of `fail_internal`.
fn fail_internal_exec(m: Machine) -> (r: (Machine, Action))
    ensures
        r == fail_internal(m),
{
    (Machine { state: SessionState::Error(ProxyError::InternalError), ..m }, Action::Finish)
}

} // verus!
